//! `key = value` option lists, such as the contents of `postgres_type(...)`.
//!
//! Each attribute that takes options knows which keys it accepts and what
//! kind of value each key takes. The list is read left to right; an unknown
//! key stops it, and when a key is given twice the later value counts.

use vstd::prelude::*;
use crate::tokens::{toks, Tok, TokenTree};
use crate::syntax::{
    at_punct, parse_ident, parse_lit_bool, parse_lit_int, parse_lit_str, parse_path,
    parse_type, parse_type_path, peek_punct, pos_res, spec_ident, spec_lit_bool, spec_lit_int,
    spec_lit_str, spec_path, spec_type, spec_type_path, text_is, tok_punct, lemma_value_run_bounds, AttrError, RunKind,
    AttrErrorV, Ident, LitBool, LitInt, LitStr, Path, Type, TypePath,
};

use crate::util::suggest_attribute;

verus! {

/// What kind of value an option takes.
#[derive(Clone, Copy, PartialEq, Eq, Structural, Debug)]
pub enum ValueKind {
    Ident,
    LitStr,
    LitInt,
    LitBool,
    Type,
    Path,
    TypePath,
}

/// The value of an option.
#[derive(Debug)]
pub enum Value {
    Ident(Ident),
    LitStr(LitStr),
    LitInt(LitInt),
    LitBool(LitBool),
    Type(Type),
    Path(Path),
    TypePath(TypePath),
}

pub enum ValueV {
    Ident(Seq<char>),
    LitStr(Seq<char>),
    LitInt(Seq<char>),
    LitBool(bool),
    Type(Seq<char>),
    Path(Seq<char>),
    TypePath(Seq<char>),
}

impl View for Value {
    type V = ValueV;

    open spec fn view(&self) -> ValueV {
        match self {
            Value::Ident(x) => ValueV::Ident(x@),
            Value::LitStr(x) => ValueV::LitStr(x@),
            Value::LitInt(x) => ValueV::LitInt(x@),
            Value::LitBool(x) => ValueV::LitBool(x@),
            Value::Type(x) => ValueV::Type(x@),
            Value::Path(x) => ValueV::Path(x@),
            Value::TypePath(x) => ValueV::TypePath(x@),
        }
    }
}

/// A value of kind `k` at `pos`.
pub open spec fn spec_value(k: ValueKind, ts: Seq<Tok>, pos: int) -> Result<(ValueV, int), AttrErrorV> {
    match k {
        ValueKind::Ident => match spec_ident(ts, pos) {
            Ok((s, e)) => Ok((ValueV::Ident(s), e)),
            Err(x) => Err(x),
        },
        ValueKind::LitStr => match spec_lit_str(ts, pos) {
            Ok((s, e)) => Ok((ValueV::LitStr(s), e)),
            Err(x) => Err(x),
        },
        ValueKind::LitInt => match spec_lit_int(ts, pos) {
            Ok((s, e)) => Ok((ValueV::LitInt(s), e)),
            Err(x) => Err(x),
        },
        ValueKind::LitBool => match spec_lit_bool(ts, pos) {
            Ok((b, e)) => Ok((ValueV::LitBool(b), e)),
            Err(x) => Err(x),
        },
        ValueKind::Type => match spec_type(ts, pos) {
            Ok((s, e)) => Ok((ValueV::Type(s), e)),
            Err(x) => Err(x),
        },
        ValueKind::Path => match spec_path(ts, pos) {
            Ok((s, e)) => Ok((ValueV::Path(s), e)),
            Err(x) => Err(x),
        },
        ValueKind::TypePath => match spec_type_path(ts, pos) {
            Ok((s, e)) => Ok((ValueV::TypePath(s), e)),
            Err(x) => Err(x),
        },
    }
}

/// What is read ends no earlier than where it starts.
pub proof fn lemma_value_bounds(k: ValueKind, ts: Seq<Tok>, pos: int)
    requires
        0 <= pos <= ts.len(),
    ensures
        spec_value(k, ts, pos) matches Ok((_, e)) ==> pos <= e <= ts.len(),
{
    lemma_value_run_bounds(RunKind::Type, ts, pos);
    lemma_value_run_bounds(RunKind::Path, ts, pos);
    lemma_value_run_bounds(RunKind::TypePath, ts, pos);
}

/// Reads a value of kind `k` at `pos`.
pub fn parse_value(k: ValueKind, ts: &Vec<TokenTree>, pos: usize) -> (r: Result<(Value, usize), AttrError>)
    requires
        pos <= ts@.len(),
    ensures
        pos_res(r) == spec_value(k, toks(ts), pos as int),
{
    match k {
        ValueKind::Ident => match parse_ident(ts, pos) {
            Ok((x, e)) => Ok((Value::Ident(x), e)),
            Err(x) => Err(x),
        },
        ValueKind::LitStr => match parse_lit_str(ts, pos) {
            Ok((x, e)) => Ok((Value::LitStr(x), e)),
            Err(x) => Err(x),
        },
        ValueKind::LitInt => match parse_lit_int(ts, pos) {
            Ok((x, e)) => Ok((Value::LitInt(x), e)),
            Err(x) => Err(x),
        },
        ValueKind::LitBool => match parse_lit_bool(ts, pos) {
            Ok((x, e)) => Ok((Value::LitBool(x), e)),
            Err(x) => Err(x),
        },
        ValueKind::Type => match parse_type(ts, pos) {
            Ok((x, e)) => Ok((Value::Type(x), e)),
            Err(x) => Err(x),
        },
        ValueKind::Path => match parse_path(ts, pos) {
            Ok((x, e)) => Ok((Value::Path(x), e)),
            Err(x) => Err(x),
        },
        ValueKind::TypePath => match parse_type_path(ts, pos) {
            Ok((x, e)) => Ok((Value::TypePath(x), e)),
            Err(x) => Err(x),
        },
    }
}

/// The attributes that take option lists.
#[derive(Clone, Copy, PartialEq, Eq, Structural, Debug)]
pub enum OptionTable {
    /// `changeset_options(treat_none_as_null = <bool>)`
    ChangesetOptions,
    /// `mysql_type(name = "<string>")`
    MysqlType,
    /// `sqlite_type(name = "<string>")`
    SqliteType,
    /// `postgres_type(oid = <int>, array_oid = <int>, type_name = "<string>", type_schema = "<string>")`
    PostgresType,
    /// the options after the parent of `belongs_to(<parent>, foreign_key = <ident>)`
    BelongsTo,
}

impl OptionTable {
    /// The kind of value that `key` takes, or `None` when the key is unknown.
    pub open spec fn kind_of(self, key: Seq<char>) -> Option<ValueKind> {
        match self {
            OptionTable::ChangesetOptions => if key == "treat_none_as_null"@ {
                Some(ValueKind::LitBool)
            } else {
                None
            },
            OptionTable::MysqlType => if key == "name"@ {
                Some(ValueKind::LitStr)
            } else {
                None
            },
            OptionTable::SqliteType => if key == "name"@ {
                Some(ValueKind::LitStr)
            } else {
                None
            },
            OptionTable::PostgresType => if key == "oid"@ {
                Some(ValueKind::LitInt)
            } else if key == "array_oid"@ {
                Some(ValueKind::LitInt)
            } else if key == "type_name"@ {
                Some(ValueKind::LitStr)
            } else if key == "type_schema"@ {
                Some(ValueKind::LitStr)
            } else {
                None
            },
            OptionTable::BelongsTo => if key == "foreign_key"@ {
                Some(ValueKind::Ident)
            } else {
                None
            },
        }
    }

    /// Whether options are separated by commas (all lists but the
    /// `belongs_to` options, which follow one another directly).
    pub open spec fn comma_separated(self) -> bool {
        !(self is BelongsTo)
    }

    pub fn lookup(&self, key: &Ident) -> (r: Option<ValueKind>)
        ensures
            r == self.kind_of(key@),
    {
        let k = &key.0;
        match self {
            OptionTable::ChangesetOptions => if text_is(k, "treat_none_as_null") {
                Some(ValueKind::LitBool)
            } else {
                None
            },
            OptionTable::MysqlType => if text_is(k, "name") {
                Some(ValueKind::LitStr)
            } else {
                None
            },
            OptionTable::SqliteType => if text_is(k, "name") {
                Some(ValueKind::LitStr)
            } else {
                None
            },
            OptionTable::PostgresType => if text_is(k, "oid") {
                Some(ValueKind::LitInt)
            } else if text_is(k, "array_oid") {
                Some(ValueKind::LitInt)
            } else if text_is(k, "type_name") {
                Some(ValueKind::LitStr)
            } else if text_is(k, "type_schema") {
                Some(ValueKind::LitStr)
            } else {
                None
            },
            OptionTable::BelongsTo => if text_is(k, "foreign_key") {
                Some(ValueKind::Ident)
            } else {
                None
            },
        }
    }

    pub fn is_comma_separated(&self) -> (r: bool)
        ensures
            r == self.comma_separated(),
    {
        match self {
            OptionTable::BelongsTo => false,
            _ => true,
        }
    }
}

/// One option: its key and its value.
#[derive(Debug)]
pub struct Entry {
    pub key: Ident,
    pub value: Value,
}

impl View for Entry {
    type V = (Seq<char>, ValueV);

    open spec fn view(&self) -> (Seq<char>, ValueV) {
        (self.key@, self.value@)
    }
}

/// One option at `pos`: a key, `=`, then a value of the kind the key takes.
pub open spec fn spec_entry(ts: Seq<Tok>, pos: int, table: OptionTable) -> Result<((Seq<char>, ValueV), int), AttrErrorV> {
    match spec_ident(ts, pos) {
        Err(e) => Err(e),
        Ok((key, p1)) => if !at_punct(ts, p1, '=') {
            Err(AttrErrorV::ExpectedEq)
        } else {
            match table.kind_of(key) {
                None => Err(AttrErrorV::UnknownOption(key)),
                Some(k) => match spec_value(k, ts, p1 + 1) {
                    Err(e) => Err(e),
                    Ok((v, p2)) => Ok(((key, v), p2)),
                },
            }
        },
    }
}

pub proof fn lemma_entry_bounds(ts: Seq<Tok>, pos: int, table: OptionTable)
    requires
        0 <= pos <= ts.len(),
    ensures
        spec_entry(ts, pos, table) matches Ok((_, e)) ==> pos < e <= ts.len(),
{
    if let Ok((key, p1)) = spec_ident(ts, pos) {
        if at_punct(ts, p1, '=') {
            if let Some(k) = table.kind_of(key) {
                lemma_value_bounds(k, ts, p1 + 1);
            }
        }
    }
}

pub open spec fn cons_entry(
    en: (Seq<char>, ValueV),
    rest: Result<Seq<(Seq<char>, ValueV)>, AttrErrorV>,
) -> Result<Seq<(Seq<char>, ValueV)>, AttrErrorV> {
    match rest {
        Ok(es) => Ok(seq![en] + es),
        Err(e) => Err(e),
    }
}

/// The options from `pos` to the end of the stream: options one after the
/// other (with a comma between two of them where the table asks for it, and
/// a comma allowed at the end), stopping at the first error.
pub open spec fn spec_entries(ts: Seq<Tok>, pos: int, table: OptionTable) -> Result<Seq<(Seq<char>, ValueV)>, AttrErrorV>
    decreases ts.len() - pos,
{
    if pos < 0 || pos >= ts.len() {
        Ok(Seq::empty())
    } else {
        match spec_entry(ts, pos, table) {
            Err(e) => Err(e),
            Ok((en, e)) => {
                proof {
                    lemma_entry_bounds(ts, pos, table);
                }
                if e >= ts.len() {
                    Ok(seq![en])
                } else if table.comma_separated() {
                    if at_punct(ts, e, ',') {
                        cons_entry(en, spec_entries(ts, e + 1, table))
                    } else {
                        Err(AttrErrorV::ExpectedComma)
                    }
                } else {
                    cons_entry(en, spec_entries(ts, e, table))
                }
            },
        }
    }
}

pub open spec fn view_entries(es: Seq<Entry>) -> Seq<(Seq<char>, ValueV)> {
    es.map_values(|e: Entry| e@)
}

pub open spec fn entries_res(r: Result<Vec<Entry>, AttrError>) -> Result<Seq<(Seq<char>, ValueV)>, AttrErrorV> {
    match r {
        Ok(es) => Ok(view_entries(es@)),
        Err(e) => Err(e@),
    }
}

/// Reads one option at `pos`.
pub fn parse_entry(ts: &Vec<TokenTree>, pos: usize, table: OptionTable) -> (r: Result<(Entry, usize), AttrError>)
    requires
        pos <= ts@.len(),
    ensures
        pos_res(r) == spec_entry(toks(ts), pos as int, table),
{
    let (key, p1) = match parse_ident(ts, pos) {
        Ok(x) => x,
        Err(e) => return Err(e),
    };
    if !peek_punct(ts, p1, '=') {
        return Err(AttrError::ExpectedEq);
    }
    assert(at_punct(toks(ts), p1 as int, '='));
    assert(p1 < ts.len());
    match table.lookup(&key) {
        None => Err(suggest_attribute(&key)),
        Some(k) => match parse_value(k, ts, p1 + 1) {
            Err(e) => Err(e),
            Ok((v, p2)) => Ok((Entry { key, value: v }, p2)),
        },
    }
}

/// Reads the options from `pos` to the end of the stream.
pub fn parse_entries(ts: &Vec<TokenTree>, start: usize, table: OptionTable) -> (r: Result<Vec<Entry>, AttrError>)
    requires
        start <= ts@.len(),
    ensures
        entries_res(r) == spec_entries(toks(ts), start as int, table),
{
    let ghost t = toks(ts);
    let mut out: Vec<Entry> = Vec::new();
    let mut pos = start;
    loop
        invariant
            t == toks(ts),
            start <= pos <= ts@.len(),
            spec_entries(t, start as int, table) == match spec_entries(t, pos as int, table) {
                Ok(rest) => Ok(view_entries(out@) + rest),
                Err(e) => Err(e),
            },
        decreases ts@.len() - pos,
    {
        if pos >= ts.len() {
            assert(view_entries(out@) + Seq::<(Seq<char>, ValueV)>::empty() == view_entries(out@));
            return Ok(out);
        }
        proof {
            lemma_entry_bounds(t, pos as int, table);
        }
        let (entry, e) = match parse_entry(ts, pos, table) {
            Ok(x) => x,
            Err(err) => return Err(err),
        };
        let ghost before = view_entries(out@);
        let ghost en = entry@;
        out.push(entry);
        assert(view_entries(out@) == before.push(en));
        if e >= ts.len() {
            assert(before + seq![en] == before.push(en));
            return Ok(out);
        }
        if table.is_comma_separated() {
            if !peek_punct(ts, e, ',') {
                return Err(AttrError::ExpectedComma);
            }
            pos = e + 1;
        } else {
            pos = e;
        }
        proof {
            match spec_entries(t, pos as int, table) {
                Ok(rest) => {
                    assert(before + (seq![en] + rest) == before.push(en) + rest);
                },
                Err(_) => {},
            }
        }
    }
}

/// The value of the last option with key `key`.
pub open spec fn last_value(es: Seq<(Seq<char>, ValueV)>, key: Seq<char>) -> Option<ValueV>
    decreases es.len(),
{
    if es.len() == 0 {
        None
    } else if es.last().0 == key {
        Some(es.last().1)
    } else {
        last_value(es.drop_last(), key)
    }
}

/// Whether some option in `es` has key `key`.
pub open spec fn key_given(es: Seq<(Seq<char>, ValueV)>, key: Seq<char>) -> bool {
    exists|i: int| 0 <= i < es.len() && #[trigger] es[i].0 == key
}

/// Whether `v` is the value of the last option in `es` with key `key`: an
/// option `(key, v)` after which no option has that key.
pub open spec fn given_last(es: Seq<(Seq<char>, ValueV)>, key: Seq<char>, v: ValueV) -> bool {
    exists|i: int|
        0 <= i < es.len() && #[trigger] es[i] == (key, v) && forall|j: int| i < j < es.len() ==> #[trigger] es[j].0 != key
}

/// `last_value` is the value given last, and nothing when the key is not given.
pub proof fn lemma_last_value_given(es: Seq<(Seq<char>, ValueV)>, key: Seq<char>)
    ensures
        !key_given(es, key) ==> last_value(es, key) is None,
        forall|v: ValueV| #[trigger] given_last(es, key, v) ==> last_value(es, key) == Some(v),
    decreases es.len(),
{
    if es.len() > 0 {
        let front = es.drop_last();
        lemma_last_value_given(front, key);
        if !key_given(es, key) {
            assert forall|i: int| 0 <= i < front.len() implies #[trigger] front[i].0 != key by {
                assert(front[i] == es[i]);
            }
            assert(es[es.len() - 1].0 != key);
        }
        assert forall|v: ValueV| #[trigger] given_last(es, key, v) implies last_value(es, key) == Some(v) by {
            let i = choose|i: int|
                0 <= i < es.len() && #[trigger] es[i] == (key, v) && forall|j: int| i < j < es.len() ==> #[trigger] es[j].0 != key;
            if i < es.len() - 1 {
                assert(es.last() == es[es.len() - 1]);
                assert(es[es.len() - 1].0 != key);
                assert(front[i] == es[i]);
                assert forall|j: int| i < j < front.len() implies #[trigger] front[j].0 != key by {
                    assert(front[j] == es[j]);
                }
                assert(given_last(front, key, v));
            }
        }
    }
}

/// Whether `v` is a value of kind `k`.
pub open spec fn value_has_kind(v: ValueV, k: ValueKind) -> bool {
    match v {
        ValueV::Ident(_) => k is Ident,
        ValueV::LitStr(_) => k is LitStr,
        ValueV::LitInt(_) => k is LitInt,
        ValueV::LitBool(_) => k is LitBool,
        ValueV::Type(_) => k is Type,
        ValueV::Path(_) => k is Path,
        ValueV::TypePath(_) => k is TypePath,
    }
}

/// Whether every option in `es` has a key of `table` and a value of the kind
/// that key takes.
pub open spec fn entries_of_table(es: Seq<(Seq<char>, ValueV)>, table: OptionTable) -> bool {
    forall|i: int|
        0 <= i < es.len() ==> (#[trigger] table.kind_of(es[i].0) matches Some(k) && value_has_kind(es[i].1, k))
}

/// Options read from tokens have keys of the table and values of their kinds.
pub proof fn lemma_entries_of_table(ts: Seq<Tok>, pos: int, table: OptionTable)
    ensures
        spec_entries(ts, pos, table) matches Ok(es) ==> entries_of_table(es, table),
    decreases ts.len() - pos,
{
    if 0 <= pos < ts.len() {
        if let Ok((en, e)) = spec_entry(ts, pos, table) {
            lemma_entry_bounds(ts, pos, table);
            if e < ts.len() {
                lemma_entries_of_table(ts, e + 1, table);
                lemma_entries_of_table(ts, e, table);
                if let Ok(more) = spec_entries(ts, pos, table) {
                    assert forall|i: int| 0 <= i < more.len() implies (#[trigger] table.kind_of(more[i].0) matches Some(
                        k,
                    ) && value_has_kind(more[i].1, k)) by {
                        if i > 0 {
                            if table.comma_separated() {
                                assert(more[i] == spec_entries(ts, e + 1, table)->Ok_0[i - 1]);
                            } else {
                                assert(more[i] == spec_entries(ts, e, table)->Ok_0[i - 1]);
                            }
                        }
                    }
                }
            }
        }
    }
}

/// A key that is given has a last value, of the kind the key takes.
pub proof fn lemma_given_has_last(es: Seq<(Seq<char>, ValueV)>, key: Seq<char>, table: OptionTable)
    requires
        entries_of_table(es, table),
    ensures
        key_given(es, key) ==> (last_value(es, key) matches Some(v) && table.kind_of(key) matches Some(k)
            && value_has_kind(v, k)),
    decreases es.len(),
{
    if es.len() > 0 {
        let front = es.drop_last();
        assert forall|i: int| 0 <= i < front.len() implies (#[trigger] table.kind_of(front[i].0) matches Some(k)
            && value_has_kind(front[i].1, k)) by {
            assert(front[i] == es[i]);
        }
        lemma_given_has_last(front, key, table);
        assert(table.kind_of(es[es.len() - 1].0) matches Some(k) && value_has_kind(es[es.len() - 1].1, k));
        if key_given(es, key) && es.last().0 != key {
            let i = choose|i: int| 0 <= i < es.len() && #[trigger] es[i].0 == key;
            assert(i != es.len() - 1);
            assert(front[i] == es[i]);
        }
    }
}

/// The last option with key `key`, when its value is a string literal.
pub open spec fn last_lit_str(es: Seq<(Seq<char>, ValueV)>, key: Seq<char>) -> Option<Seq<char>> {
    match last_value(es, key) {
        Some(ValueV::LitStr(s)) => Some(s),
        _ => None,
    }
}

/// The last option with key `key`, when its value is an integer literal.
pub open spec fn last_lit_int(es: Seq<(Seq<char>, ValueV)>, key: Seq<char>) -> Option<Seq<char>> {
    match last_value(es, key) {
        Some(ValueV::LitInt(s)) => Some(s),
        _ => None,
    }
}

/// The last option with key `key`, when its value is a boolean literal.
pub open spec fn last_lit_bool(es: Seq<(Seq<char>, ValueV)>, key: Seq<char>) -> Option<bool> {
    match last_value(es, key) {
        Some(ValueV::LitBool(b)) => Some(b),
        _ => None,
    }
}

/// The last option with key `key`, when its value is an identifier.
pub open spec fn last_ident(es: Seq<(Seq<char>, ValueV)>, key: Seq<char>) -> Option<Seq<char>> {
    match last_value(es, key) {
        Some(ValueV::Ident(s)) => Some(s),
        _ => None,
    }
}

/// Finds the index of the last option with key `key`.
pub fn find_last(es: &Vec<Entry>, key: &str) -> (r: Option<usize>)
    ensures
        match r {
            Some(i) => i < es@.len() && last_value(view_entries(es@), key@) == Some(es@[i as int].value@),
            None => last_value(view_entries(es@), key@) is None,
        },
{
    let mut i = es.len();
    assert(view_entries(es@).take(es@.len() as int) == view_entries(es@));
    while i > 0
        invariant
            i <= es@.len(),
            last_value(view_entries(es@), key@) == last_value(view_entries(es@).take(i as int), key@),
        decreases i,
    {
        let ghost v = view_entries(es@).take(i as int);
        assert(v.drop_last() == view_entries(es@).take(i as int - 1));
        if text_is(&es[i - 1].key.0, key) {
            return Some(i - 1);
        }
        i = i - 1;
    }
    None
}

pub fn clone_text(s: &String) -> (r: String)
    ensures
        r@ == s@,
{
    s.clone()
}

/// The last string literal given for `key`.
pub fn last_lit_str_of(es: &Vec<Entry>, key: &str) -> (r: Option<LitStr>)
    ensures
        match r {
            Some(x) => last_lit_str(view_entries(es@), key@) == Some(x@),
            None => last_lit_str(view_entries(es@), key@) is None,
        },
{
    match find_last(es, key) {
        Some(i) => match &es[i].value {
            Value::LitStr(x) => Some(LitStr(clone_text(&x.0))),
            _ => None,
        },
        None => None,
    }
}

/// The last integer literal given for `key`.
pub fn last_lit_int_of(es: &Vec<Entry>, key: &str) -> (r: Option<LitInt>)
    ensures
        match r {
            Some(x) => last_lit_int(view_entries(es@), key@) == Some(x@),
            None => last_lit_int(view_entries(es@), key@) is None,
        },
{
    match find_last(es, key) {
        Some(i) => match &es[i].value {
            Value::LitInt(x) => Some(LitInt(clone_text(&x.0))),
            _ => None,
        },
        None => None,
    }
}

/// The last boolean literal given for `key`.
pub fn last_lit_bool_of(es: &Vec<Entry>, key: &str) -> (r: Option<LitBool>)
    ensures
        match r {
            Some(x) => last_lit_bool(view_entries(es@), key@) == Some(x@),
            None => last_lit_bool(view_entries(es@), key@) is None,
        },
{
    match find_last(es, key) {
        Some(i) => match &es[i].value {
            Value::LitBool(x) => Some(LitBool(x.0)),
            _ => None,
        },
        None => None,
    }
}

/// The last identifier given for `key`.
pub fn last_ident_of(es: &Vec<Entry>, key: &str) -> (r: Option<Ident>)
    ensures
        match r {
            Some(x) => last_ident(view_entries(es@), key@) == Some(x@),
            None => last_ident(view_entries(es@), key@) is None,
        },
{
    match find_last(es, key) {
        Some(i) => match &es[i].value {
            Value::Ident(x) => Some(Ident(clone_text(&x.0))),
            _ => None,
        },
        None => None,
    }
}

/// The order of options with different keys does not matter: swapping two
/// neighbouring options with different keys leaves the value that counts for
/// every key as it was.
pub proof fn lemma_last_value_swap(
    before: Seq<(Seq<char>, ValueV)>,
    a: (Seq<char>, ValueV),
    b: (Seq<char>, ValueV),
    after: Seq<(Seq<char>, ValueV)>,
    key: Seq<char>,
)
    requires
        a.0 != b.0,
    ensures
        last_value(before + seq![a, b] + after, key) == last_value(before + seq![b, a] + after, key),
    decreases after.len(),
{
    let x = before + seq![a, b] + after;
    let y = before + seq![b, a] + after;
    if after.len() == 0 {
        assert(x == before + seq![a, b]);
        assert(y == before + seq![b, a]);
        assert(x.drop_last() == before.push(a));
        assert(y.drop_last() == before.push(b));
        assert(before.push(a).drop_last() == before);
        assert(before.push(b).drop_last() == before);
    } else {
        assert(x.drop_last() == before + seq![a, b] + after.drop_last());
        assert(y.drop_last() == before + seq![b, a] + after.drop_last());
        lemma_last_value_swap(before, a, b, after.drop_last(), key);
    }
}

/// Whether no key of `table` takes a type or a path, whose extent is found
/// by looking ahead to the next comma.
pub open spec fn single_token_values(table: OptionTable) -> bool {
    forall|key: Seq<char>| #[trigger] table.kind_of(key) matches Some(k) ==> (k is Ident || k is LitStr || k is LitInt
        || k is LitBool)
}

proof fn lemma_tables_single_token(table: OptionTable)
    ensures
        single_token_values(table),
{
}

/// Shifting a position by the length of tokens put in front.
pub open spec fn shifted<V>(r: Result<(V, int), AttrErrorV>, n: int) -> Result<(V, int), AttrErrorV> {
    match r {
        Ok((v, e)) => Ok((v, e + n)),
        Err(x) => Err(x),
    }
}

/// A value of one token (or a sign and a number) reads the same after tokens
/// put in front.
proof fn lemma_value_shift(k: ValueKind, p: Seq<Tok>, r: Seq<Tok>, i: int)
    requires
        0 <= i,
        k is Ident || k is LitStr || k is LitInt || k is LitBool,
    ensures
        spec_value(k, p + r, p.len() + i) == shifted(spec_value(k, r, i), p.len() as int),
{
    let ts = p + r;
    let n = p.len() as int;
    if i < r.len() {
        assert(ts[n + i] == r[i]);
    }
    if i + 1 < r.len() {
        assert(ts[n + i + 1] == r[i + 1]);
    }
}

/// A value that is read within `s` reads the same with tokens after `s`.
proof fn lemma_value_extend(k: ValueKind, s: Seq<Tok>, t: Seq<Tok>, i: int)
    requires
        0 <= i,
        k is Ident || k is LitStr || k is LitInt || k is LitBool,
        spec_value(k, s, i) is Ok,
    ensures
        spec_value(k, s + t, i) == spec_value(k, s, i),
{
    let ts = s + t;
    if i < s.len() {
        assert(ts[i] == s[i]);
    }
    if i + 1 < s.len() {
        assert(ts[i + 1] == s[i + 1]);
    }
}

/// An option reads the same after tokens put in front.
proof fn lemma_entry_shift(p: Seq<Tok>, r: Seq<Tok>, i: int, table: OptionTable)
    requires
        0 <= i,
    ensures
        spec_entry(p + r, p.len() + i, table) == shifted(spec_entry(r, i, table), p.len() as int),
{
    let ts = p + r;
    let n = p.len() as int;
    lemma_tables_single_token(table);
    if i < r.len() {
        assert(ts[n + i] == r[i]);
        if let Ok((key, p1)) = spec_ident(r, i) {
            if p1 < r.len() {
                assert(ts[n + p1] == r[p1]);
            }
            if let Some(k) = table.kind_of(key) {
                lemma_value_shift(k, p, r, p1 + 1);
            }
        }
    }
}

/// An option read within `s` reads the same with tokens after `s`.
proof fn lemma_entry_extend(s: Seq<Tok>, t: Seq<Tok>, table: OptionTable)
    requires
        spec_entry(s, 0, table) is Ok,
    ensures
        spec_entry(s + t, 0, table) == spec_entry(s, 0, table),
{
    let ts = s + t;
    lemma_tables_single_token(table);
    assert(ts[0] == s[0]);
    if let Ok((key, p1)) = spec_ident(s, 0) {
        assert(ts[p1] == s[p1]);
        if let Some(k) = table.kind_of(key) {
            lemma_value_extend(k, s, t, p1 + 1);
        }
    }
}

/// A list of options reads the same after tokens put in front.
proof fn lemma_entries_shift(p: Seq<Tok>, r: Seq<Tok>, i: int, table: OptionTable)
    requires
        0 <= i,
    ensures
        spec_entries(p + r, p.len() + i, table) == spec_entries(r, i, table),
    decreases r.len() - i,
{
    let ts = p + r;
    let n = p.len() as int;
    if i < r.len() {
        lemma_entry_shift(p, r, i, table);
        lemma_entry_bounds(r, i, table);
        if let Ok((en, e)) = spec_entry(r, i, table) {
            if e < r.len() {
                assert(ts[n + e] == r[e]);
                lemma_entries_shift(p, r, e + 1, table);
                lemma_entries_shift(p, r, e, table);
            }
        }
    }
}

/// One option that takes all of `s`, a comma, then more tokens: the option,
/// then the options of the rest.
proof fn lemma_entries_split(s: Seq<Tok>, comma: Tok, rest: Seq<Tok>, en: (Seq<char>, ValueV), table: OptionTable)
    requires
        table.comma_separated(),
        tok_punct(comma, ','),
        spec_entry(s, 0, table) == Ok::<_, AttrErrorV>((en, s.len() as int)),
    ensures
        spec_entries(s + seq![comma] + rest, 0, table) == cons_entry(en, spec_entries(rest, 0, table)),
{
    let tail = seq![comma] + rest;
    let ts = s + tail;
    assert(s + seq![comma] + rest == ts);
    lemma_entry_extend(s, tail, table);
    assert(ts[s.len() as int] == comma);
    lemma_entries_shift(s + seq![comma], rest, 0, table);
    assert(s + seq![comma] + rest == ts);
}

/// Options written one after the other, with `comma` between each two.
pub open spec fn joined(pieces: Seq<Seq<Tok>>, comma: Tok) -> Seq<Tok>
    decreases pieces.len(),
{
    if pieces.len() == 0 {
        Seq::empty()
    } else if pieces.len() == 1 {
        pieces[0]
    } else {
        pieces[0] + seq![comma] + joined(pieces.drop_first(), comma)
    }
}

/// Whether each piece of tokens reads, whole, as the option in `ens` at its place.
pub open spec fn pieces_read_as(pieces: Seq<Seq<Tok>>, ens: Seq<(Seq<char>, ValueV)>, table: OptionTable) -> bool {
    &&& pieces.len() == ens.len()
    &&& forall|i: int|
        0 <= i < pieces.len() ==> #[trigger] spec_entry(pieces[i], 0, table) == Ok::<_, AttrErrorV>(
            (ens[i], pieces[i].len() as int),
        )
}

/// Options read in front of the result of reading the rest.
pub open spec fn prepend_entries(
    es: Seq<(Seq<char>, ValueV)>,
    rest: Result<Seq<(Seq<char>, ValueV)>, AttrErrorV>,
) -> Result<Seq<(Seq<char>, ValueV)>, AttrErrorV> {
    match rest {
        Ok(more) => Ok(es + more),
        Err(e) => Err(e),
    }
}

/// `s` with the elements at `i` and `i + 1` swapped.
pub open spec fn swapped<A>(s: Seq<A>, i: int) -> Seq<A> {
    s.update(i, s[i + 1]).update(i + 1, s[i])
}

/// Options joined by commas read as those options, and in front of a comma
/// and more tokens they read as those options, then the options of the rest.
proof fn lemma_joined_entries(
    pieces: Seq<Seq<Tok>>,
    ens: Seq<(Seq<char>, ValueV)>,
    comma: Tok,
    rest: Seq<Tok>,
    table: OptionTable,
)
    requires
        table.comma_separated(),
        tok_punct(comma, ','),
        pieces.len() > 0,
        pieces_read_as(pieces, ens, table),
    ensures
        spec_entries(joined(pieces, comma), 0, table) == Ok::<_, AttrErrorV>(ens),
        spec_entries(joined(pieces, comma) + seq![comma] + rest, 0, table) == prepend_entries(
            ens,
            spec_entries(rest, 0, table),
        ),
    decreases pieces.len(),
{
    let p0 = pieces[0];
    let en0 = ens[0];
    assert(spec_entry(p0, 0, table) == Ok::<_, AttrErrorV>((en0, p0.len() as int)));
    lemma_entry_bounds(p0, 0, table);
    lemma_entries_split(p0, comma, rest, en0, table);
    if pieces.len() == 1 {
        assert(ens == seq![en0]);
        match spec_entries(rest, 0, table) {
            Ok(more) => {
                assert(seq![en0] + more == ens + more);
            },
            Err(_) => {},
        }
    } else {
        let tail = joined(pieces.drop_first(), comma);
        assert forall|i: int| 0 <= i < pieces.drop_first().len() implies #[trigger] spec_entry(
            pieces.drop_first()[i],
            0,
            table,
        ) == Ok::<_, AttrErrorV>((ens.drop_first()[i], pieces.drop_first()[i].len() as int)) by {
            assert(pieces.drop_first()[i] == pieces[i + 1]);
            assert(spec_entry(pieces[i + 1], 0, table) == Ok::<_, AttrErrorV>(
                (ens[i + 1], pieces[i + 1].len() as int),
            ));
        }
        lemma_joined_entries(pieces.drop_first(), ens.drop_first(), comma, rest, table);
        lemma_entries_split(p0, comma, tail, en0, table);
        assert(seq![en0] + ens.drop_first() == ens);
        lemma_entries_split(p0, comma, tail + seq![comma] + rest, en0, table);
        assert(joined(pieces, comma) + seq![comma] + rest == p0 + seq![comma] + (tail + seq![comma] + rest));
        match spec_entries(rest, 0, table) {
            Ok(more) => {
                assert(seq![en0] + (ens.drop_first() + more) == ens + more);
            },
            Err(_) => {},
        }
    }
}

/// Two neighbouring options with different keys, in a list of options
/// separated by commas, can be swapped: whatever follows the list (nothing,
/// or a comma and more tokens), the value that counts for every key stays as
/// it was, and so does any error. Any order of options with different keys is
/// reached by such swaps.
pub proof fn lemma_entries_swap(
    pieces: Seq<Seq<Tok>>,
    ens: Seq<(Seq<char>, ValueV)>,
    i: int,
    comma: Tok,
    tail: Seq<Tok>,
    table: OptionTable,
)
    requires
        table.comma_separated(),
        tok_punct(comma, ','),
        pieces_read_as(pieces, ens, table),
        0 <= i,
        i + 1 < pieces.len(),
        ens[i].0 != ens[i + 1].0,
        tail.len() == 0 || tail[0] == comma,
    ensures
        match (
            spec_entries(joined(pieces, comma) + tail, 0, table),
            spec_entries(joined(swapped(pieces, i), comma) + tail, 0, table),
        ) {
            (Ok(a), Ok(b)) => forall|key: Seq<char>| #[trigger] last_value(a, key) == last_value(b, key),
            (Err(x), Err(y)) => x == y,
            _ => false,
        },
{
    let sp = swapped(pieces, i);
    let se = swapped(ens, i);
    assert forall|j: int| 0 <= j < sp.len() implies #[trigger] spec_entry(sp[j], 0, table) == Ok::<_, AttrErrorV>(
        (se[j], sp[j].len() as int),
    ) by {
        if j == i {
            assert(spec_entry(pieces[i + 1], 0, table) == Ok::<_, AttrErrorV>(
                (ens[i + 1], pieces[i + 1].len() as int),
            ));
        } else if j == i + 1 {
            assert(spec_entry(pieces[i], 0, table) == Ok::<_, AttrErrorV>((ens[i], pieces[i].len() as int)));
        } else {
            assert(spec_entry(pieces[j], 0, table) == Ok::<_, AttrErrorV>((ens[j], pieces[j].len() as int)));
        }
    }
    let before = ens.take(i);
    let after = ens.skip(i + 2);
    assert(ens == before + seq![ens[i], ens[i + 1]] + after);
    assert(se == before + seq![ens[i + 1], ens[i]] + after);
    if tail.len() == 0 {
        lemma_joined_entries(pieces, ens, comma, tail, table);
        lemma_joined_entries(sp, se, comma, tail, table);
        assert(joined(pieces, comma) + tail == joined(pieces, comma));
        assert(joined(sp, comma) + tail == joined(sp, comma));
        assert forall|key: Seq<char>| #[trigger] last_value(ens, key) == last_value(se, key) by {
            lemma_last_value_swap(before, ens[i], ens[i + 1], after, key);
        }
    } else {
        let rest = tail.drop_first();
        assert(tail == seq![comma] + rest);
        lemma_joined_entries(pieces, ens, comma, rest, table);
        lemma_joined_entries(sp, se, comma, rest, table);
        assert(joined(pieces, comma) + tail == joined(pieces, comma) + seq![comma] + rest);
        assert(joined(sp, comma) + tail == joined(sp, comma) + seq![comma] + rest);
        match spec_entries(rest, 0, table) {
            Ok(more) => {
                assert(ens + more == before + seq![ens[i], ens[i + 1]] + (after + more));
                assert(se + more == before + seq![ens[i + 1], ens[i]] + (after + more));
                assert forall|key: Seq<char>| #[trigger] last_value(ens + more, key) == last_value(se + more, key) by {
                    lemma_last_value_swap(before, ens[i], ens[i + 1], after + more, key);
                }
            },
            Err(_) => {},
        }
    }
}

} // verus!
