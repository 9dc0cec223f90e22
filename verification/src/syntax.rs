//! The pieces of attribute syntax: identifiers, literals, types and paths,
//! and `key = value` option lists.
//!
//! Every parser here reads a token stream from a position and either fails
//! or returns what it read together with the position after it. Which words
//! are identifiers, which literal a literal token is, and which token runs are
//! types or paths is decided by `syn`; where a type or a path ends in the
//! stream (at the first comma that is not inside angle brackets) is decided
//! here.

use vstd::prelude::*;
use crate::tokens::{render_seq, render_text, toks, Delimiter, Tok, TokenTree};

verus! {

/// Why reading an attribute failed.
#[derive(Debug)]
pub enum AttrError {
    ExpectedIdent,
    ExpectedEq,
    ExpectedComma,
    ExpectedStringLiteral,
    ExpectedIntegerLiteral,
    ExpectedBooleanLiteral,
    ExpectedType,
    ExpectedPath,
    /// `#[diesel]` without arguments.
    ExpectedArguments,
    /// `#[diesel = ...]`.
    ExpectedParentheses,
    /// Something other than one delimited group after `#[diesel`.
    UnexpectedArgumentToken,
    /// Tokens left over after a complete attribute or option group.
    UnexpectedToken,
    /// An option name that the attribute does not know, or that has the wrong form.
    UnknownOption(String),
    /// `mysql_type(...)` or `sqlite_type(...)` without `name`.
    MissingName,
    /// `postgres_type(...)` with `type_schema` but without `type_name`.
    TypeNameRequired,
    /// `postgres_type(...)` with neither `type_name` nor both `oid` and `array_oid`.
    MissingOids,
}

pub enum AttrErrorV {
    ExpectedIdent,
    ExpectedEq,
    ExpectedComma,
    ExpectedStringLiteral,
    ExpectedIntegerLiteral,
    ExpectedBooleanLiteral,
    ExpectedType,
    ExpectedPath,
    ExpectedArguments,
    ExpectedParentheses,
    UnexpectedArgumentToken,
    UnexpectedToken,
    UnknownOption(Seq<char>),
    MissingName,
    TypeNameRequired,
    MissingOids,
}

impl View for AttrError {
    type V = AttrErrorV;

    open spec fn view(&self) -> AttrErrorV {
        match self {
            AttrError::ExpectedIdent => AttrErrorV::ExpectedIdent,
            AttrError::ExpectedEq => AttrErrorV::ExpectedEq,
            AttrError::ExpectedComma => AttrErrorV::ExpectedComma,
            AttrError::ExpectedStringLiteral => AttrErrorV::ExpectedStringLiteral,
            AttrError::ExpectedIntegerLiteral => AttrErrorV::ExpectedIntegerLiteral,
            AttrError::ExpectedBooleanLiteral => AttrErrorV::ExpectedBooleanLiteral,
            AttrError::ExpectedType => AttrErrorV::ExpectedType,
            AttrError::ExpectedPath => AttrErrorV::ExpectedPath,
            AttrError::ExpectedArguments => AttrErrorV::ExpectedArguments,
            AttrError::ExpectedParentheses => AttrErrorV::ExpectedParentheses,
            AttrError::UnexpectedArgumentToken => AttrErrorV::UnexpectedArgumentToken,
            AttrError::UnexpectedToken => AttrErrorV::UnexpectedToken,
            AttrError::UnknownOption(s) => AttrErrorV::UnknownOption(s@),
            AttrError::MissingName => AttrErrorV::MissingName,
            AttrError::TypeNameRequired => AttrErrorV::TypeNameRequired,
            AttrError::MissingOids => AttrErrorV::MissingOids,
        }
    }
}

/// A warning emitted while reading attributes; reading goes on.
#[derive(Debug)]
pub enum Warning {
    /// `#[<name> ...]` written in the old form, without `diesel(...)`.
    DeprecatedForm(String),
    /// `oid` given together with `type_name`, which wins.
    UnexpectedOid,
    /// `array_oid` given together with `type_name`, which wins.
    UnexpectedArrayOid,
}

pub enum WarningV {
    DeprecatedForm(Seq<char>),
    UnexpectedOid,
    UnexpectedArrayOid,
}

impl View for Warning {
    type V = WarningV;

    open spec fn view(&self) -> WarningV {
        match self {
            Warning::DeprecatedForm(s) => WarningV::DeprecatedForm(s@),
            Warning::UnexpectedOid => WarningV::UnexpectedOid,
            Warning::UnexpectedArrayOid => WarningV::UnexpectedArrayOid,
        }
    }
}

pub open spec fn view_warnings(ws: Seq<Warning>) -> Seq<WarningV> {
    ws.map_values(|w: Warning| w@)
}

/// The message shown for an error.
pub open spec fn error_message(e: AttrErrorV) -> Seq<char> {
    match e {
        AttrErrorV::ExpectedIdent => "expected identifier"@,
        AttrErrorV::ExpectedEq => "expected `=`"@,
        AttrErrorV::ExpectedComma => "expected `,`"@,
        AttrErrorV::ExpectedStringLiteral => "expected string literal"@,
        AttrErrorV::ExpectedIntegerLiteral => "expected integer literal"@,
        AttrErrorV::ExpectedBooleanLiteral => "expected boolean literal"@,
        AttrErrorV::ExpectedType => "expected type"@,
        AttrErrorV::ExpectedPath => "expected path"@,
        AttrErrorV::ExpectedArguments => "expected attribute arguments in parentheses: #[diesel(...)]"@,
        AttrErrorV::ExpectedParentheses => "expected parentheses: #[diesel(...)]"@,
        AttrErrorV::UnexpectedArgumentToken => "unexpected token in attribute arguments"@,
        AttrErrorV::UnexpectedToken => "unexpected token"@,
        AttrErrorV::UnknownOption(name) => "`"@ + name + "` is either unexpected or has bad format"@,
        AttrErrorV::MissingName => "expected `name`"@,
        AttrErrorV::TypeNameRequired => "expected `type_name` to be also present"@,
        AttrErrorV::MissingOids => "expected `oid` and `array_oid` or `type_name`"@,
    }
}

impl AttrError {
    /// The message to show for this error.
    pub fn message(&self) -> (r: String)
        ensures
            r@ == error_message(self@),
    {
        match self {
            AttrError::ExpectedIdent => String::from_str("expected identifier"),
            AttrError::ExpectedEq => String::from_str("expected `=`"),
            AttrError::ExpectedComma => String::from_str("expected `,`"),
            AttrError::ExpectedStringLiteral => String::from_str("expected string literal"),
            AttrError::ExpectedIntegerLiteral => String::from_str("expected integer literal"),
            AttrError::ExpectedBooleanLiteral => String::from_str("expected boolean literal"),
            AttrError::ExpectedType => String::from_str("expected type"),
            AttrError::ExpectedPath => String::from_str("expected path"),
            AttrError::ExpectedArguments => String::from_str("expected attribute arguments in parentheses: #[diesel(...)]"),
            AttrError::ExpectedParentheses => String::from_str("expected parentheses: #[diesel(...)]"),
            AttrError::UnexpectedArgumentToken => String::from_str("unexpected token in attribute arguments"),
            AttrError::UnexpectedToken => String::from_str("unexpected token"),
            AttrError::UnknownOption(name) => {
                let mut out = String::from_str("`");
                out.append(name.as_str());
                out.append("` is either unexpected or has bad format");
                out
            },
            AttrError::MissingName => String::from_str("expected `name`"),
            AttrError::TypeNameRequired => String::from_str("expected `type_name` to be also present"),
            AttrError::MissingOids => String::from_str("expected `oid` and `array_oid` or `type_name`"),
        }
    }
}

/// The message shown for a warning.
pub open spec fn warning_message(w: WarningV) -> Seq<char> {
    match w {
        WarningV::DeprecatedForm(name) => "#["@ + name + "] attribute form is deprecated"@,
        WarningV::UnexpectedOid => "unexpected `oid` when `type_name` is present"@,
        WarningV::UnexpectedArrayOid => "unexpected `array_oid` when `type_name` is present"@,
    }
}

impl Warning {
    /// The message to show for this warning.
    pub fn message(&self) -> (r: String)
        ensures
            r@ == warning_message(self@),
    {
        match self {
            Warning::DeprecatedForm(name) => {
                let mut out = String::from_str("#[");
                out.append(name.as_str());
                out.append("] attribute form is deprecated");
                out
            },
            Warning::UnexpectedOid => String::from_str("unexpected `oid` when `type_name` is present"),
            Warning::UnexpectedArrayOid => String::from_str("unexpected `array_oid` when `type_name` is present"),
        }
    }
}

/// The kinds of literal that `syn` tells apart.
#[derive(Clone, Copy, PartialEq, Eq, Structural, Debug)]
pub enum LitKind {
    Str,
    ByteStr,
    Byte,
    Char,
    Int,
    Float,
    Bool,
    Verbatim,
}

/// An identifier.
#[derive(Debug)]
pub struct Ident(pub String);

/// A string literal, as written.
#[derive(Debug)]
pub struct LitStr(pub String);

/// An integer literal, as written (with its sign when it is negative).
#[derive(Debug)]
pub struct LitInt(pub String);

/// A boolean literal.
#[derive(Clone, Copy, Debug)]
pub struct LitBool(pub bool);

/// A type, as the text of its tokens.
#[derive(Debug)]
pub struct Type(pub String);

/// A path, as the text of its tokens.
#[derive(Debug)]
pub struct Path(pub String);

/// A type path, as the text of its tokens.
#[derive(Debug)]
pub struct TypePath(pub String);

impl View for Ident {
    type V = Seq<char>;

    open spec fn view(&self) -> Seq<char> {
        self.0@
    }
}

impl View for LitStr {
    type V = Seq<char>;

    open spec fn view(&self) -> Seq<char> {
        self.0@
    }
}

impl View for LitInt {
    type V = Seq<char>;

    open spec fn view(&self) -> Seq<char> {
        self.0@
    }
}

impl View for LitBool {
    type V = bool;

    open spec fn view(&self) -> bool {
        self.0
    }
}

impl View for Type {
    type V = Seq<char>;

    open spec fn view(&self) -> Seq<char> {
        self.0@
    }
}

impl View for Path {
    type V = Seq<char>;

    open spec fn view(&self) -> Seq<char> {
        self.0@
    }
}

impl View for TypePath {
    type V = Seq<char>;

    open spec fn view(&self) -> Seq<char> {
        self.0@
    }
}

/// Whether a C-string literal (`c"..."`, `cr"..."`, `cr#"..."#`) starts at
/// index `i` of `text`.
pub open spec fn starts_c_string(text: Seq<char>, i: int) -> bool {
    &&& 0 <= i
    &&& i + 1 < text.len()
    &&& text[i] == 'c'
    &&& (text[i + 1] == '"' || (text[i + 1] == 'r' && i + 2 < text.len() && (text[i + 2] == '"' || text[i + 2]
        == '#')))
}

/// A character that can continue an ASCII identifier.
pub open spec fn ident_char(c: char) -> bool {
    ('a' <= c && c <= 'z') || ('A' <= c && c <= 'Z') || ('0' <= c && c <= '9') || c == '_'
}

/// The text of a literal token (with a leading `-`, as a negative number is
/// read) that is a C-string literal. `syn::Lit::new` panics on such a literal.
pub open spec fn c_string_literal(text: Seq<char>) -> bool {
    starts_c_string(text, 0) || (text.len() > 0 && text[0] == '-' && starts_c_string(text, 1))
}

/// Whether a C-string literal may start at index `i` of `text`: there, and
/// not in the middle of an identifier.
pub open spec fn c_string_starts_at(text: Seq<char>, i: int) -> bool {
    (i == 0 || (0 < i <= text.len() && !ident_char(text[i - 1]))) && starts_c_string(text, i)
}

/// Whether a C-string literal may start somewhere in `text`: a `c"`, `cr"` or
/// `cr#` that does not continue an identifier. Every C-string literal token
/// of the text starts so; the converse need not hold (such characters inside
/// an ordinary string literal count too).
pub open spec fn mentions_c_string(text: Seq<char>) -> bool {
    exists|i: int| 0 <= i < text.len() && #[trigger] c_string_starts_at(text, i)
}

fn c_string_at(text: &str, n: usize, k: usize) -> (b: bool)
    requires
        k < n,
        n == text@.len(),
    ensures
        b == starts_c_string(text@, k as int),
{
    if k < n - 1 && text.get_char(k) == 'c' {
        let c1 = text.get_char(k + 1);
        c1 == '"' || (c1 == 'r' && k < n - 2 && (text.get_char(k + 2) == '"' || text.get_char(k + 2) == '#'))
    } else {
        false
    }
}

/// Whether the literal text `text` is a C-string literal.
pub fn is_c_string_literal(text: &str) -> (r: bool)
    ensures
        r == c_string_literal(text@),
{
    let n = text.unicode_len();
    if n == 0 {
        return false;
    }
    c_string_at(text, n, 0) || (n > 1 && text.get_char(0) == '-' && c_string_at(text, n, 1))
}

/// Whether a C-string literal may start somewhere in `text`.
pub fn has_c_string(text: &str) -> (r: bool)
    ensures
        r == mentions_c_string(text@),
{
    let n = text.unicode_len();
    let mut i: usize = 0;
    while i < n
        invariant
            i <= n,
            n == text@.len(),
            forall|j: int| 0 <= j < i ==> !#[trigger] c_string_starts_at(text@, j),
        decreases n - i,
    {
        let boundary = i == 0 || {
            let p = text.get_char(i - 1);
            !(('a' <= p && p <= 'z') || ('A' <= p && p <= 'Z') || ('0' <= p && p <= '9') || p == '_')
        };
        if boundary && c_string_at(text, n, i) {
            assert(c_string_starts_at(text@, i as int));
            return true;
        }
        assert(!c_string_starts_at(text@, i as int));
        i = i + 1;
    }
    false
}

/// Whether `syn` reads `text` as an identifier (`syn::Ident`'s parser, which
/// refuses keywords and `_`).
pub uninterp spec fn syn_accepts_ident(text: Seq<char>) -> bool;

/// The kind of literal that `syn` reads `text` as, if it reads it as one.
pub uninterp spec fn syn_literal_kind(text: Seq<char>) -> Option<LitKind>;

/// Whether `syn` reads all of `text` as a type.
pub uninterp spec fn syn_accepts_type(text: Seq<char>) -> bool;

/// Whether `syn` reads all of `text` as a path.
pub uninterp spec fn syn_accepts_path(text: Seq<char>) -> bool;

/// Whether `syn` reads all of `text` as a type path.
pub uninterp spec fn syn_accepts_type_path(text: Seq<char>) -> bool;

/// Calls `syn::parse_str::<syn::Ident>`; whether it succeeds is named, not restated.
#[verifier::external_body]
fn syn_ident_ok(text: &str) -> (r: bool)
    ensures
        r == syn_accepts_ident(text@),
{
    syn::parse_str::<syn::Ident>(text).is_ok()
}

/// Calls `syn::parse_str::<syn::Lit>` and reports which variant it returned.
/// `syn::Lit::new` panics on a C-string literal, so such texts are left out.
#[verifier::external_body]
fn syn_lit_kind(text: &str) -> (r: Option<LitKind>)
    requires
        !c_string_literal(text@),
    ensures
        r == syn_literal_kind(text@),
{
    match syn::parse_str::<syn::Lit>(text) {
        Ok(syn::Lit::Str(_)) => Some(LitKind::Str),
        Ok(syn::Lit::ByteStr(_)) => Some(LitKind::ByteStr),
        Ok(syn::Lit::Byte(_)) => Some(LitKind::Byte),
        Ok(syn::Lit::Char(_)) => Some(LitKind::Char),
        Ok(syn::Lit::Int(_)) => Some(LitKind::Int),
        Ok(syn::Lit::Float(_)) => Some(LitKind::Float),
        Ok(syn::Lit::Bool(_)) => Some(LitKind::Bool),
        Ok(syn::Lit::Verbatim(_)) => Some(LitKind::Verbatim),
        Err(_) => None,
    }
}

/// Calls `syn::parse_str::<syn::Type>`; whether it succeeds is named, not restated.
/// Parsing a type peeks for literals, and `syn::Lit::new` panics on a C-string
/// literal, so texts where one may start are left out.
#[verifier::external_body]
fn syn_type_ok(text: &str) -> (r: bool)
    requires
        !mentions_c_string(text@),
    ensures
        r == syn_accepts_type(text@),
{
    syn::parse_str::<syn::Type>(text).is_ok()
}

/// Calls `syn::parse_str::<syn::Path>`; whether it succeeds is named, not restated.
/// Parsing a type peeks for literals, and `syn::Lit::new` panics on a C-string
/// literal, so texts where one may start are left out.
#[verifier::external_body]
fn syn_path_ok(text: &str) -> (r: bool)
    requires
        !mentions_c_string(text@),
    ensures
        r == syn_accepts_path(text@),
{
    syn::parse_str::<syn::Path>(text).is_ok()
}

/// Calls `syn::parse_str::<syn::TypePath>`; whether it succeeds is named, not restated.
/// Parsing a type peeks for literals, and `syn::Lit::new` panics on a C-string
/// literal, so texts where one may start are left out.
#[verifier::external_body]
fn syn_type_path_ok(text: &str) -> (r: bool)
    requires
        !mentions_c_string(text@),
    ensures
        r == syn_accepts_type_path(text@),
{
    syn::parse_str::<syn::TypePath>(text).is_ok()
}

/// The text a string literal spells, as `syn::LitStr::value` gives it, when
/// `syn` reads `text` as a string literal.
pub uninterp spec fn syn_str_literal_value(text: Seq<char>) -> Option<Seq<char>>;

/// Calls `syn::parse_str::<syn::LitStr>` and takes its `value`; the result is
/// named, not restated. Reading a literal goes through `syn::Lit::new`, which
/// panics on a C-string literal, so such texts are left out.
#[verifier::external_body]
fn syn_str_value(text: &str) -> (r: Option<String>)
    requires
        !c_string_literal(text@),
    ensures
        match r {
            Some(v) => syn_str_literal_value(text@) == Some(v@),
            None => syn_str_literal_value(text@) is None,
        },
{
    syn::parse_str::<syn::LitStr>(text).ok().map(|lit| lit.value())
}

/// The text a string literal token spells, if it is one.
pub open spec fn spelled_text(t: Tok) -> Option<Seq<char>> {
    match t {
        Tok::Literal(l) => if c_string_literal(l) {
            None
        } else {
            syn_str_literal_value(l)
        },
        _ => None,
    }
}

/// Reads the text that a string literal token spells.
pub fn spelled(t: &TokenTree) -> (r: Option<String>)
    ensures
        match r {
            Some(v) => spelled_text(t@) == Some(v@),
            None => spelled_text(t@) is None,
        },
{
    match t {
        TokenTree::Literal(l) => {
            if is_c_string_literal(l.as_str()) {
                None
            } else {
                syn_str_value(l.as_str())
            }
        },
        _ => None,
    }
}

/// Whether `s` holds the same text as `lit`.
pub fn text_is(s: &String, lit: &str) -> (r: bool)
    ensures
        r == (s@ == lit@),
{
    let l = String::from_str(lit);
    *s == l
}

// ---------------------------------------------------------------------------
// Single tokens

pub open spec fn tok_punct(t: Tok, c: char) -> bool {
    match t {
        Tok::Punct(d, _) => d == c,
        _ => false,
    }
}

pub open spec fn at_punct(ts: Seq<Tok>, pos: int, c: char) -> bool {
    0 <= pos < ts.len() && tok_punct(ts[pos], c)
}

pub open spec fn at_group(ts: Seq<Tok>, pos: int, d: Delimiter) -> bool {
    0 <= pos < ts.len() && (ts[pos] matches Tok::Group(e, _) && e == d)
}

/// The contents of the group at `pos` (empty when there is none).
pub open spec fn group_body(ts: Seq<Tok>, pos: int) -> Seq<Tok> {
    if 0 <= pos < ts.len() {
        match ts[pos] {
            Tok::Group(_, inner) => inner,
            _ => Seq::empty(),
        }
    } else {
        Seq::empty()
    }
}

/// The view of a parse result that carries the position after what was read.
pub open spec fn pos_res<A: View>(r: Result<(A, usize), AttrError>) -> Result<(A::V, int), AttrErrorV> {
    match r {
        Ok((a, e)) => Ok((a@, e as int)),
        Err(err) => Err(err@),
    }
}

/// Whether the token at `pos` is the punctuation character `c`.
pub fn peek_punct(ts: &Vec<TokenTree>, pos: usize, c: char) -> (r: bool)
    ensures
        r == at_punct(toks(ts), pos as int, c),
{
    if pos < ts.len() {
        match &ts[pos] {
            TokenTree::Punct(d, _) => *d == c,
            _ => false,
        }
    } else {
        false
    }
}

/// Whether the token at `pos` is a group delimited by `d`.
pub fn peek_group(ts: &Vec<TokenTree>, pos: usize, d: Delimiter) -> (r: bool)
    ensures
        r == at_group(toks(ts), pos as int, d),
{
    if pos < ts.len() {
        match &ts[pos] {
            TokenTree::Group(e, _) => *e == d,
            _ => false,
        }
    } else {
        false
    }
}

/// An identifier at `pos`.
pub open spec fn spec_ident(ts: Seq<Tok>, pos: int) -> Result<(Seq<char>, int), AttrErrorV> {
    if 0 <= pos < ts.len() {
        match ts[pos] {
            Tok::Ident(s) => if syn_accepts_ident(s) {
                Ok((s, pos + 1))
            } else {
                Err(AttrErrorV::ExpectedIdent)
            },
            _ => Err(AttrErrorV::ExpectedIdent),
        }
    } else {
        Err(AttrErrorV::ExpectedIdent)
    }
}

/// Reads an identifier at `pos`.
pub fn parse_ident(ts: &Vec<TokenTree>, pos: usize) -> (r: Result<(Ident, usize), AttrError>)
    ensures
        pos_res(r) == spec_ident(toks(ts), pos as int),
{
    if pos < ts.len() {
        match &ts[pos] {
            TokenTree::Ident(s) => {
                if syn_ident_ok(s.as_str()) {
                    Ok((Ident(s.clone()), pos + 1))
                } else {
                    Err(AttrError::ExpectedIdent)
                }
            },
            _ => Err(AttrError::ExpectedIdent),
        }
    } else {
        Err(AttrError::ExpectedIdent)
    }
}

/// A literal at `pos`, as `syn::Lit`'s parser reads it: a literal token, the
/// identifiers `true` and `false`, or `-` followed by a numeric literal.
/// Gives the kind, the text and the position after it.
pub open spec fn spec_literal(ts: Seq<Tok>, pos: int) -> Option<(LitKind, Seq<char>, int)> {
    if 0 <= pos < ts.len() {
        match ts[pos] {
            Tok::Literal(t) => if c_string_literal(t) {
                None
            } else {
                match syn_literal_kind(t) {
                    Some(k) => Some((k, t, pos + 1)),
                    None => None,
                }
            },
            Tok::Ident(s) => if s == "true"@ || s == "false"@ {
                Some((LitKind::Bool, s, pos + 1))
            } else {
                None
            },
            Tok::Punct(c, _) => if c == '-' && pos + 1 < ts.len() {
                match ts[pos + 1] {
                    Tok::Literal(t) => if c_string_literal(seq!['-'] + t) {
                        None
                    } else {
                        match syn_literal_kind(seq!['-'] + t) {
                            Some(LitKind::Int) => Some((LitKind::Int, seq!['-'] + t, pos + 2)),
                            Some(LitKind::Float) => Some((LitKind::Float, seq!['-'] + t, pos + 2)),
                            _ => None,
                        }
                    },
                    _ => None,
                }
            } else {
                None
            },
            Tok::Group(_, _) => None,
        }
    } else {
        None
    }
}

fn parse_literal(ts: &Vec<TokenTree>, pos: usize) -> (r: Option<(LitKind, String, usize)>)
    ensures
        match r {
            Some((k, t, e)) => spec_literal(toks(ts), pos as int) == Some((k, t@, e as int)),
            None => spec_literal(toks(ts), pos as int) is None,
        },
{
    if pos >= ts.len() {
        return None;
    }
    match &ts[pos] {
        TokenTree::Literal(t) => {
            if is_c_string_literal(t.as_str()) {
                return None;
            }
            match syn_lit_kind(t.as_str()) {
                Some(k) => Some((k, t.clone(), pos + 1)),
                None => None,
            }
        },
        TokenTree::Ident(s) => {
            if text_is(s, "true") || text_is(s, "false") {
                Some((LitKind::Bool, s.clone(), pos + 1))
            } else {
                None
            }
        },
        TokenTree::Punct(c, _) => {
            if *c == '-' && pos + 1 < ts.len() {
                match &ts[pos + 1] {
                    TokenTree::Literal(t) => {
                        let mut neg = String::from_str("-");
                        proof {
                            reveal_strlit("-");
                        }
                        neg.append(t.as_str());
                        assert(neg@ == seq!['-'] + t@);
                        if is_c_string_literal(neg.as_str()) {
                            return None;
                        }
                        match syn_lit_kind(neg.as_str()) {
                            Some(LitKind::Int) => Some((LitKind::Int, neg, pos + 2)),
                            Some(LitKind::Float) => Some((LitKind::Float, neg, pos + 2)),
                            _ => None,
                        }
                    },
                    _ => None,
                }
            } else {
                None
            }
        },
        TokenTree::Group(_, _) => None,
    }
}

/// A string literal at `pos`.
pub open spec fn spec_lit_str(ts: Seq<Tok>, pos: int) -> Result<(Seq<char>, int), AttrErrorV> {
    match spec_literal(ts, pos) {
        Some((LitKind::Str, t, e)) => Ok((t, e)),
        _ => Err(AttrErrorV::ExpectedStringLiteral),
    }
}

/// An integer literal at `pos`.
pub open spec fn spec_lit_int(ts: Seq<Tok>, pos: int) -> Result<(Seq<char>, int), AttrErrorV> {
    match spec_literal(ts, pos) {
        Some((LitKind::Int, t, e)) => Ok((t, e)),
        _ => Err(AttrErrorV::ExpectedIntegerLiteral),
    }
}

/// A boolean literal at `pos`.
pub open spec fn spec_lit_bool(ts: Seq<Tok>, pos: int) -> Result<(bool, int), AttrErrorV> {
    match spec_literal(ts, pos) {
        Some((LitKind::Bool, t, e)) => Ok((t == "true"@, e)),
        _ => Err(AttrErrorV::ExpectedBooleanLiteral),
    }
}

/// Reads a string literal at `pos`.
pub fn parse_lit_str(ts: &Vec<TokenTree>, pos: usize) -> (r: Result<(LitStr, usize), AttrError>)
    ensures
        pos_res(r) == spec_lit_str(toks(ts), pos as int),
{
    match parse_literal(ts, pos) {
        Some((LitKind::Str, t, e)) => Ok((LitStr(t), e)),
        _ => Err(AttrError::ExpectedStringLiteral),
    }
}

/// Reads an integer literal at `pos`.
pub fn parse_lit_int(ts: &Vec<TokenTree>, pos: usize) -> (r: Result<(LitInt, usize), AttrError>)
    ensures
        pos_res(r) == spec_lit_int(toks(ts), pos as int),
{
    match parse_literal(ts, pos) {
        Some((LitKind::Int, t, e)) => Ok((LitInt(t), e)),
        _ => Err(AttrError::ExpectedIntegerLiteral),
    }
}

/// Reads a boolean literal at `pos`.
pub fn parse_lit_bool(ts: &Vec<TokenTree>, pos: usize) -> (r: Result<(LitBool, usize), AttrError>)
    ensures
        pos_res(r) == spec_lit_bool(toks(ts), pos as int),
{
    match parse_literal(ts, pos) {
        Some((LitKind::Bool, t, e)) => Ok((LitBool(text_is(&t, "true")), e)),
        _ => Err(AttrError::ExpectedBooleanLiteral),
    }
}

// ---------------------------------------------------------------------------
// Types and paths

/// Whether `t` is a `-` joined to the next character (the start of `->`).
pub open spec fn joint_minus(t: Tok) -> bool {
    match t {
        Tok::Punct(c, j) => c == '-' && j,
        _ => false,
    }
}

/// The angle-bracket depth after the token at `pos`: `<` opens, `>` closes
/// unless it ends `->`; the depth never goes below zero.
pub open spec fn angle_step(ts: Seq<Tok>, pos: int, depth: nat) -> nat {
    if tok_punct(ts[pos], '<') {
        depth + 1
    } else if tok_punct(ts[pos], '>') && !(pos > 0 && joint_minus(ts[pos - 1])) && depth > 0 {
        (depth - 1) as nat
    } else {
        depth
    }
}

/// Where a type or path that starts at `pos` ends: at the first comma outside
/// angle brackets, or at the end of the stream.
pub open spec fn run_end(ts: Seq<Tok>, pos: int, depth: nat) -> int
    decreases ts.len() - pos,
{
    if pos < 0 || pos >= ts.len() {
        pos
    } else if depth == 0 && tok_punct(ts[pos], ',') {
        pos
    } else {
        run_end(ts, pos + 1, angle_step(ts, pos, depth))
    }
}

pub proof fn lemma_run_end_bounds(ts: Seq<Tok>, pos: int, depth: nat)
    requires
        0 <= pos <= ts.len(),
    ensures
        pos <= run_end(ts, pos, depth) <= ts.len(),
    decreases ts.len() - pos,
{
    if pos < ts.len() && !(depth == 0 && tok_punct(ts[pos], ',')) {
        lemma_run_end_bounds(ts, pos + 1, angle_step(ts, pos, depth));
    }
}

/// Finds where the type or path that starts at `pos` ends.
pub fn find_run_end(ts: &Vec<TokenTree>, pos: usize) -> (e: usize)
    requires
        pos <= ts@.len(),
    ensures
        e as int == run_end(toks(ts), pos as int, 0),
        pos <= e <= ts@.len(),
{
    let ghost t = toks(ts);
    let mut i = pos;
    let mut depth: usize = 0;
    proof {
        lemma_run_end_bounds(t, pos as int, 0);
    }
    while i < ts.len()
        invariant
            pos <= i <= ts@.len(),
            t == toks(ts),
            depth <= i - pos,
            run_end(t, pos as int, 0) == run_end(t, i as int, depth as nat),
        decreases ts@.len() - i,
    {
        if depth == 0 && peek_punct(ts, i, ',') {
            return i;
        }
        let open = peek_punct(ts, i, '<');
        let close = peek_punct(ts, i, '>');
        if open {
            depth = depth + 1;
        } else if close && depth > 0 {
            let after_minus = i > 0 && match &ts[i - 1] {
                TokenTree::Punct(c, j) => *c == '-' && *j,
                _ => false,
            };
            if !after_minus {
                depth = depth - 1;
            }
        }
        i = i + 1;
    }
    i
}

/// What the value of an option is read as.
#[derive(Clone, Copy, PartialEq, Eq, Structural, Debug)]
pub enum RunKind {
    Type,
    Path,
    TypePath,
}

/// Whether `syn` reads all of `text` as a value of kind `k`. A text where a
/// C-string literal may start is refused before `syn` sees it.
pub open spec fn accepts_run(k: RunKind, text: Seq<char>) -> bool {
    !mentions_c_string(text) && match k {
        RunKind::Type => syn_accepts_type(text),
        RunKind::Path => syn_accepts_path(text),
        RunKind::TypePath => syn_accepts_type_path(text),
    }
}

/// The end of the longest run of tokens from `pos`, ending at `end` or
/// before, that `syn` reads whole as a value of kind `k`.
pub open spec fn longest_run(k: RunKind, ts: Seq<Tok>, pos: int, end: int) -> Option<int>
    decreases end - pos,
{
    if end <= pos {
        None
    } else if accepts_run(k, render_seq(ts.subrange(pos, end))) {
        Some(end)
    } else {
        longest_run(k, ts, pos, end - 1)
    }
}

pub proof fn lemma_longest_run_bounds(k: RunKind, ts: Seq<Tok>, pos: int, end: int)
    ensures
        longest_run(k, ts, pos, end) matches Some(e) ==> pos < e <= end,
    decreases end - pos,
{
    if end > pos {
        lemma_longest_run_bounds(k, ts, pos, end - 1);
    }
}

/// A value of kind `k` at `pos`: among the tokens before the next comma
/// outside angle brackets, the longest run from `pos` that `syn` reads whole
/// (`syn`'s parser stops where the value ends, and what follows is left for
/// the caller); its text and where it ends.
pub open spec fn spec_value_run(k: RunKind, ts: Seq<Tok>, pos: int) -> Option<(Seq<char>, int)> {
    match longest_run(k, ts, pos, run_end(ts, pos, 0)) {
        Some(e) => Some((render_seq(ts.subrange(pos, e)), e)),
        None => None,
    }
}

/// A value that is read takes at least one token.
pub proof fn lemma_value_run_bounds(k: RunKind, ts: Seq<Tok>, pos: int)
    requires
        0 <= pos <= ts.len(),
    ensures
        spec_value_run(k, ts, pos) matches Some((_, e)) ==> pos < e <= ts.len(),
{
    lemma_run_end_bounds(ts, pos, 0);
    lemma_longest_run_bounds(k, ts, pos, run_end(ts, pos, 0));
}

/// A type at `pos`.
pub open spec fn spec_type(ts: Seq<Tok>, pos: int) -> Result<(Seq<char>, int), AttrErrorV> {
    match spec_value_run(RunKind::Type, ts, pos) {
        Some((text, e)) => Ok((text, e)),
        None => Err(AttrErrorV::ExpectedType),
    }
}

/// A path at `pos`.
pub open spec fn spec_path(ts: Seq<Tok>, pos: int) -> Result<(Seq<char>, int), AttrErrorV> {
    match spec_value_run(RunKind::Path, ts, pos) {
        Some((text, e)) => Ok((text, e)),
        None => Err(AttrErrorV::ExpectedPath),
    }
}

/// A type path at `pos`.
pub open spec fn spec_type_path(ts: Seq<Tok>, pos: int) -> Result<(Seq<char>, int), AttrErrorV> {
    match spec_value_run(RunKind::TypePath, ts, pos) {
        Some((text, e)) => Ok((text, e)),
        None => Err(AttrErrorV::ExpectedType),
    }
}

fn accepts(k: RunKind, text: &String) -> (r: bool)
    ensures
        r == accepts_run(k, text@),
{
    if has_c_string(text.as_str()) {
        return false;
    }
    match k {
        RunKind::Type => syn_type_ok(text.as_str()),
        RunKind::Path => syn_path_ok(text.as_str()),
        RunKind::TypePath => syn_type_path_ok(text.as_str()),
    }
}

fn read_value_run(k: RunKind, ts: &Vec<TokenTree>, pos: usize) -> (r: Option<(String, usize)>)
    requires
        pos <= ts@.len(),
    ensures
        match r {
            Some((text, e)) => spec_value_run(k, toks(ts), pos as int) == Some((text@, e as int)),
            None => spec_value_run(k, toks(ts), pos as int) is None,
        },
{
    let ghost t = toks(ts);
    let end = find_run_end(ts, pos);
    let mut last = end;
    while last > pos
        invariant
            t == toks(ts),
            pos <= last <= end <= ts@.len(),
            end == run_end(t, pos as int, 0),
            longest_run(k, t, pos as int, end as int) == longest_run(k, t, pos as int, last as int),
        decreases last - pos,
    {
        let text = render_text(ts, pos, last);
        if accepts(k, &text) {
            return Some((text, last));
        }
        last = last - 1;
    }
    None
}

/// Reads a type at `pos`.
pub fn parse_type(ts: &Vec<TokenTree>, pos: usize) -> (r: Result<(Type, usize), AttrError>)
    requires
        pos <= ts@.len(),
    ensures
        pos_res(r) == spec_type(toks(ts), pos as int),
{
    match read_value_run(RunKind::Type, ts, pos) {
        Some((text, e)) => Ok((Type(text), e)),
        None => Err(AttrError::ExpectedType),
    }
}

/// Reads a path at `pos`.
pub fn parse_path(ts: &Vec<TokenTree>, pos: usize) -> (r: Result<(Path, usize), AttrError>)
    requires
        pos <= ts@.len(),
    ensures
        pos_res(r) == spec_path(toks(ts), pos as int),
{
    match read_value_run(RunKind::Path, ts, pos) {
        Some((text, e)) => Ok((Path(text), e)),
        None => Err(AttrError::ExpectedPath),
    }
}

/// Reads a type path at `pos`.
pub fn parse_type_path(ts: &Vec<TokenTree>, pos: usize) -> (r: Result<(TypePath, usize), AttrError>)
    requires
        pos <= ts@.len(),
    ensures
        pos_res(r) == spec_type_path(toks(ts), pos as int),
{
    match read_value_run(RunKind::TypePath, ts, pos) {
        Some((text, e)) => Ok((TypePath(text), e)),
        None => Err(AttrError::ExpectedType),
    }
}

} // verus!
