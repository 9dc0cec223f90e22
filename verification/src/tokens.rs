//! Token trees as the attribute grammar reads them, and their rendering as text.
//!
//! A token stream is a sequence of token trees. Delimited groups hold their
//! own streams. Groups without delimiters are flattened by whoever builds the
//! trees, so every group here has a visible delimiter.

use vstd::prelude::*;

verus! {

/// The delimiter of a group.
#[derive(Clone, Copy, PartialEq, Eq, Structural, Debug)]
pub enum Delimiter {
    Parenthesis,
    Brace,
    Bracket,
}

/// One token tree: a delimited group, an identifier, a punctuation character
/// (with whether it is joined to the next punctuation character), or a literal
/// as written in the source.
#[derive(Debug)]
pub enum TokenTree {
    Group(Delimiter, Vec<TokenTree>),
    Ident(String),
    Punct(char, bool),
    Literal(String),
}

/// The mathematical value of a token tree.
pub enum Tok {
    Group(Delimiter, Seq<Tok>),
    Ident(Seq<char>),
    Punct(char, bool),
    Literal(Seq<char>),
}

pub open spec fn view_tree(t: TokenTree) -> Tok
    decreases t, 0int,
{
    match t {
        TokenTree::Group(d, ts) => Tok::Group(d, view_trees(ts@)),
        TokenTree::Ident(s) => Tok::Ident(s@),
        TokenTree::Punct(c, j) => Tok::Punct(c, j),
        TokenTree::Literal(s) => Tok::Literal(s@),
    }
}

pub open spec fn view_trees(ts: Seq<TokenTree>) -> Seq<Tok>
    decreases ts, 1int,
{
    Seq::new(
        ts.len(),
        |i: int|
            if 0 <= i < ts.len() {
                view_tree(ts[i])
            } else {
                Tok::Punct(' ', false)
            },
    )
}

impl View for TokenTree {
    type V = Tok;

    open spec fn view(&self) -> Tok {
        view_tree(*self)
    }
}

/// The value of a token stream.
pub open spec fn toks(ts: &Vec<TokenTree>) -> Seq<Tok> {
    view_trees(ts@)
}

pub open spec fn open_delim(d: Delimiter) -> char {
    match d {
        Delimiter::Parenthesis => '(',
        Delimiter::Brace => '{',
        Delimiter::Bracket => '[',
    }
}

pub open spec fn close_delim(d: Delimiter) -> char {
    match d {
        Delimiter::Parenthesis => ')',
        Delimiter::Brace => '}',
        Delimiter::Bracket => ']',
    }
}

/// The text of one token tree: every token is followed by a space, except a
/// punctuation character joined to the next one.
pub open spec fn render_tok(t: Tok) -> Seq<char>
    decreases t, 0int,
{
    match t {
        Tok::Group(d, inner) => seq![open_delim(d)] + render_seq(inner) + seq![close_delim(d), ' '],
        Tok::Ident(s) => s + seq![' '],
        Tok::Literal(s) => s + seq![' '],
        Tok::Punct(c, joint) => if joint {
            seq![c]
        } else {
            seq![c, ' ']
        },
    }
}

/// The text of a token stream, token after token.
pub open spec fn render_seq(ts: Seq<Tok>) -> Seq<char>
    decreases ts, 1int,
{
    if ts.len() == 0 {
        Seq::empty()
    } else {
        render_seq(ts.drop_last()) + render_tok(ts.last())
    }
}

fn push_char(out: &mut String, c: char)
    ensures
        final(out)@ == old(out)@.push(c),
{
    crate::util::string_push(out, c);
}

fn delim_chars(d: Delimiter) -> (r: (char, char))
    ensures
        r.0 == open_delim(d),
        r.1 == close_delim(d),
{
    match d {
        Delimiter::Parenthesis => ('(', ')'),
        Delimiter::Brace => ('{', '}'),
        Delimiter::Bracket => ('[', ']'),
    }
}

/// Appends the text of one token tree to `out`.
pub fn render_tree(t: &TokenTree, out: &mut String)
    ensures
        final(out)@ == old(out)@ + render_tok(t@),
    decreases t, 0int,
{
    match t {
        TokenTree::Group(d, inner) => {
            let (open, close) = delim_chars(*d);
            push_char(out, open);
            proof {
                assert(decreases_to!(*t => *inner));
            }
            render_range(inner, 0, inner.len(), out);
            assert(view_trees(inner@).subrange(0, inner@.len() as int) == view_trees(inner@));
            push_char(out, close);
            push_char(out, ' ');
            assert(render_tok(t@) == seq![open] + render_seq(view_trees(inner@)) + seq![close, ' ']);
        },
        TokenTree::Ident(s) => {
            out.append(s.as_str());
            push_char(out, ' ');
        },
        TokenTree::Literal(s) => {
            out.append(s.as_str());
            push_char(out, ' ');
        },
        TokenTree::Punct(c, joint) => {
            push_char(out, *c);
            if !*joint {
                push_char(out, ' ');
            }
        },
    }
}

/// Appends the text of the token trees `ts[from..to]` to `out`.
pub fn render_range(ts: &Vec<TokenTree>, from: usize, to: usize, out: &mut String)
    requires
        from <= to <= ts@.len(),
    ensures
        final(out)@ == old(out)@ + render_seq(toks(ts).subrange(from as int, to as int)),
    decreases ts, 1int,
{
    let ghost start = out@;
    let mut i = from;
    while i < to
        invariant
            from <= i <= to <= ts@.len(),
            out@ == start + render_seq(toks(ts).subrange(from as int, i as int)),
        decreases to - i,
    {
        proof {
            broadcast use vstd::std_specs::vec::axiom_vec_decreases_to_view;
            assert(decreases_to!(ts@ => ts@[i as int]));
        }
        render_tree(&ts[i], out);
        let ghost s1 = toks(ts).subrange(from as int, i as int + 1);
        assert(s1.drop_last() == toks(ts).subrange(from as int, i as int));
        assert(s1.last() == view_tree(ts@[i as int]));
        i = i + 1;
    }
}

/// A copy of a token tree.
pub fn clone_tree(t: &TokenTree) -> (r: TokenTree)
    ensures
        r@ == t@,
    decreases t, 0int,
{
    match t {
        TokenTree::Group(d, inner) => {
            proof {
                assert(decreases_to!(*t => *inner));
            }
            let copy = clone_trees(inner);
            TokenTree::Group(*d, copy)
        },
        TokenTree::Ident(s) => TokenTree::Ident(s.clone()),
        TokenTree::Punct(c, j) => TokenTree::Punct(*c, *j),
        TokenTree::Literal(s) => TokenTree::Literal(s.clone()),
    }
}

/// A copy of a token stream.
pub fn clone_trees(ts: &Vec<TokenTree>) -> (r: Vec<TokenTree>)
    ensures
        toks(&r) == toks(ts),
    decreases ts, 1int,
{
    let mut out: Vec<TokenTree> = Vec::new();
    let mut i: usize = 0;
    while i < ts.len()
        invariant
            i <= ts@.len(),
            out@.len() == i,
            forall|k: int| 0 <= k < i ==> view_tree(#[trigger] out@[k]) == view_tree(ts@[k]),
        decreases ts@.len() - i,
    {
        proof {
            broadcast use vstd::std_specs::vec::axiom_vec_decreases_to_view;
            assert(decreases_to!(ts@ => ts@[i as int]));
        }
        let c = clone_tree(&ts[i]);
        out.push(c);
        i = i + 1;
    }
    assert(toks(&out) == toks(ts));
    out
}

/// The text of the token trees `ts[from..to]`.
pub fn render_text(ts: &Vec<TokenTree>, from: usize, to: usize) -> (r: String)
    requires
        from <= to <= ts@.len(),
    ensures
        r@ == render_seq(toks(ts).subrange(from as int, to as int)),
{
    let mut out = String::new();
    render_range(ts, from, to, &mut out);
    out
}

} // verus!
