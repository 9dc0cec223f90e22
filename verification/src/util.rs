//! Small helpers shared by the derive logic.

use vstd::prelude::*;
use crate::ast::{Data, DeriveInput, GenericArgument, GenericParam, PathArguments, TypeKind, TypeModel, type_wf};
use crate::syntax::{text_is, AttrError, AttrErrorV, Ident, Type};

verus! {

/// Whether `c` has the Unicode `Uppercase` property, as `char::is_uppercase` reports it.
pub uninterp spec fn unicode_is_uppercase(c: char) -> bool;

/// The characters that `char::to_lowercase` yields for `c`.
pub uninterp spec fn unicode_char_lowercase(c: char) -> Seq<char>;

/// The text that `str::to_lowercase` returns for `s`.
pub uninterp spec fn unicode_str_lowercase(s: Seq<char>) -> Seq<char>;

/// An ASCII character.
pub open spec fn is_ascii_char(c: char) -> bool {
    (c as u32) < 0x80
}

/// An ASCII uppercase letter.
pub open spec fn is_ascii_upper(c: char) -> bool {
    'A' <= c && c <= 'Z'
}

/// The ASCII lowercase form of `c`: the letter 32 code points on for `A` to
/// `Z`, every other character itself.
pub open spec fn ascii_lower(c: char) -> char {
    if is_ascii_upper(c) {
        ((c as u32) + 32) as char
    } else {
        c
    }
}

/// Calls `char::is_uppercase`; the result is named. For an ASCII character
/// the Unicode `Uppercase` property holds exactly for `A` to `Z`.
#[verifier::external_body]
fn char_is_uppercase(c: char) -> (r: bool)
    ensures
        r == unicode_is_uppercase(c),
        is_ascii_char(c) ==> (r <==> is_ascii_upper(c)),
{
    c.is_uppercase()
}

/// Calls `char::to_lowercase` and collects what the iterator yields; its
/// documentation promises at least one character. The lowercase mapping of
/// an ASCII character is its ASCII lowercase form.
#[verifier::external_body]
fn char_to_lowercase(c: char) -> (r: Vec<char>)
    ensures
        r@ == unicode_char_lowercase(c),
        r@.len() >= 1,
        is_ascii_char(c) ==> r@ == seq![ascii_lower(c)],
{
    c.to_lowercase().collect()
}

/// Calls `str::to_lowercase`; the result is named. An ASCII text is lowered
/// character by character to its ASCII lowercase form.
#[verifier::external_body]
fn str_to_lowercase(s: &str) -> (r: String)
    ensures
        r@ == unicode_str_lowercase(s@),
        (forall|i: int| 0 <= i < s@.len() ==> is_ascii_char(#[trigger] s@[i])) ==> r@ == s@.map_values(
            |c: char| ascii_lower(c),
        ),
{
    s.to_lowercase()
}

/// Calls `String::push`.
#[verifier::external_body]
pub(crate) fn string_push(s: &mut String, c: char)
    ensures
        final(s)@ == old(s)@.push(c),
{
    s.push(c)
}

/// What one character of the tail of a camel-case name becomes in snake case.
pub open spec fn snake_piece(c: char) -> Seq<char> {
    if unicode_is_uppercase(c) {
        seq!['_'] + unicode_char_lowercase(c)
    } else {
        seq![c]
    }
}

/// The snake-case rendering of the characters after the first one.
pub open spec fn snake_tail(cs: Seq<char>) -> Seq<char>
    decreases cs.len(),
{
    if cs.len() == 0 {
        Seq::empty()
    } else {
        snake_tail(cs.drop_last()) + snake_piece(cs.last())
    }
}

/// `camel_to_snake(name)`: the first character lower-cased as a string, then
/// every later uppercase character replaced by `_` and its lowercase mapping.
pub open spec fn spec_camel_to_snake(name: Seq<char>) -> Seq<char> {
    unicode_str_lowercase(name.take(1)) + snake_tail(name.skip(1))
}

/// A text of ASCII characters.
pub open spec fn ascii_text(s: Seq<char>) -> bool {
    forall|i: int| 0 <= i < s.len() ==> is_ascii_char(#[trigger] s[i])
}

/// What one later character of an ASCII name becomes in snake case.
pub open spec fn ascii_snake_piece(c: char) -> Seq<char> {
    if is_ascii_upper(c) {
        seq!['_', ascii_lower(c)]
    } else {
        seq![c]
    }
}

/// The snake-case rendering of the later characters of an ASCII name.
pub open spec fn ascii_snake_tail(cs: Seq<char>) -> Seq<char>
    decreases cs.len(),
{
    if cs.len() == 0 {
        Seq::empty()
    } else {
        ascii_snake_tail(cs.drop_last()) + ascii_snake_piece(cs.last())
    }
}

/// `camel_to_snake` of an ASCII name: the first letter lowered, then `_`
/// and the lowered letter for every later uppercase letter.
pub open spec fn ascii_camel_to_snake(name: Seq<char>) -> Seq<char> {
    seq![ascii_lower(name[0])] + ascii_snake_tail(name.skip(1))
}

/// A text without an ASCII uppercase letter.
pub open spec fn no_ascii_upper(s: Seq<char>) -> bool {
    forall|i: int| 0 <= i < s.len() ==> !is_ascii_upper(#[trigger] s[i])
}

proof fn lemma_ascii_lower(c: char)
    ensures
        !is_ascii_upper(ascii_lower(c)),
        is_ascii_char(c) ==> is_ascii_char(ascii_lower(c)),
        ascii_lower(ascii_lower(c)) == ascii_lower(c),
{
}

proof fn lemma_snake_tail_lowered(cs: Seq<char>)
    requires
        ascii_text(cs),
    ensures
        ascii_text(ascii_snake_tail(cs)),
        no_ascii_upper(ascii_snake_tail(cs)),
    decreases cs.len(),
{
    if cs.len() > 0 {
        lemma_snake_tail_lowered(cs.drop_last());
        lemma_ascii_lower(cs.last());
        let t = ascii_snake_tail(cs.drop_last());
        let p = ascii_snake_piece(cs.last());
        assert(is_ascii_char(cs.last()));
        assert forall|i: int| 0 <= i < (t + p).len() implies is_ascii_char(#[trigger] (t + p)[i]) && !is_ascii_upper(
            (t + p)[i],
        ) by {
            if i >= t.len() {
                assert((t + p)[i] == p[i - t.len()]);
            } else {
                assert((t + p)[i] == t[i]);
            }
        }
    }
}

proof fn lemma_snake_tail_of_lowered(cs: Seq<char>)
    requires
        no_ascii_upper(cs),
    ensures
        ascii_snake_tail(cs) == cs,
    decreases cs.len(),
{
    if cs.len() > 0 {
        lemma_snake_tail_of_lowered(cs.drop_last());
        assert(cs.drop_last().push(cs.last()) == cs);
    }
}

/// Turning an ASCII name into snake case twice is turning it once: the
/// result has no uppercase letter left to turn.
pub proof fn lemma_ascii_camel_to_snake_idempotent(name: Seq<char>)
    requires
        name.len() >= 1,
        ascii_text(name),
    ensures
        ascii_text(ascii_camel_to_snake(name)),
        ascii_camel_to_snake(ascii_camel_to_snake(name)) == ascii_camel_to_snake(name),
{
    let tail = ascii_snake_tail(name.skip(1));
    assert(ascii_text(name.skip(1)));
    lemma_snake_tail_lowered(name.skip(1));
    lemma_ascii_lower(name[0]);
    let out = ascii_camel_to_snake(name);
    assert(out.skip(1) == tail);
    assert(out[0] == ascii_lower(name[0]));
    lemma_snake_tail_of_lowered(tail);
    assert forall|i: int| 0 <= i < out.len() implies is_ascii_char(#[trigger] out[i]) by {
        if i > 0 {
            assert(out[i] == tail[i - 1]);
        }
    }
    assert(ascii_camel_to_snake(out) =~= out);
}

/// A name that `camel_to_snake` accepts: its first character is one byte long.
pub open spec fn camel_name_ok(name: Seq<char>) -> bool {
    name.len() >= 1 && (name[0] as u32) < 0x80
}

/// Turns a `CamelCase` type name into `snake_case`: `"FooBar"` becomes `"foo_bar"`.
pub fn camel_to_snake(name: &str) -> (result: String)
    requires
        camel_name_ok(name@),
    ensures
        result@ == spec_camel_to_snake(name@),
        ascii_text(name@) ==> result@ == ascii_camel_to_snake(name@),
{
    let len = name.unicode_len();
    let first = name.substring_char(0, 1);
    let mut result = str_to_lowercase(first);
    proof {
        if ascii_text(name@) {
            assert(is_ascii_char(first@[0]));
            assert(result@ =~= seq![ascii_lower(name@[0])]);
        }
    }
    let mut i: usize = 1;
    while i < len
        invariant
            1 <= i <= len,
            len == name@.len(),
            first@ == name@.take(1),
            result@ == unicode_str_lowercase(name@.take(1)) + snake_tail(name@.subrange(1, i as int)),
            ascii_text(name@) ==> result@ == seq![ascii_lower(name@[0])] + ascii_snake_tail(
                name@.subrange(1, i as int),
            ),
        decreases len - i,
    {
        let character = name.get_char(i);
        let ghost before = result@;
        if char_is_uppercase(character) {
            string_push(&mut result, '_');
            let lower = char_to_lowercase(character);
            let mut j: usize = 0;
            while j < lower.len()
                invariant
                    j <= lower@.len(),
                    lower@ == unicode_char_lowercase(character),
                    result@ == before + seq!['_'] + lower@.take(j as int),
                    is_ascii_char(character) ==> lower@ == seq![ascii_lower(character)],
                decreases lower@.len() - j,
            {
                string_push(&mut result, lower[j]);
                assert(lower@.take(j as int + 1) == lower@.take(j as int).push(lower@[j as int]));
                j = j + 1;
            }
            assert(lower@.take(lower@.len() as int) == lower@);
        } else {
            string_push(&mut result, character);
        }
        assert(name@.subrange(1, i as int + 1).drop_last() == name@.subrange(1, i as int));
        proof {
            if ascii_text(name@) {
                assert(is_ascii_char(name@[i as int]));
                assert(name@.subrange(1, i as int + 1).last() == character);
            }
        }
        i = i + 1;
    }
    assert(name@.subrange(1, len as int) == name@.skip(1));
    result
}

/// The error for an option name that an attribute does not know, or that is
/// written in the wrong form: "`name` is either unexpected or has bad format".
pub fn suggest_attribute(name: &Ident) -> (e: AttrError)
    ensures
        e@ == AttrErrorV::UnknownOption(name@),
{
    AttrError::UnknownOption(name.0.clone())
}

/// Appends `s` to `out`.
pub fn push_text(out: &mut String, s: &str)
    ensures
        final(out)@ == old(out)@ + s@,
{
    out.append(s);
}

/// The texts of `items` with `sep` between two of them.
pub open spec fn join_texts(items: Seq<Seq<char>>, sep: Seq<char>) -> Seq<char>
    decreases items.len(),
{
    if items.len() == 0 {
        Seq::empty()
    } else if items.len() == 1 {
        items[0]
    } else {
        join_texts(items.drop_last(), sep) + sep + items.last()
    }
}

/// The names of generic parameters (`decls` false) or their declarations (`decls` true).
pub open spec fn param_texts(ps: Seq<GenericParam>, decls: bool) -> Seq<Seq<char>> {
    ps.map_values(|p: GenericParam| if decls { p.decl@ } else { p.name@ })
}

/// Appends the names or the declarations of `params`, separated by `, `.
pub fn push_params(out: &mut String, params: &Vec<GenericParam>, decls: bool)
    ensures
        final(out)@ == old(out)@ + join_texts(param_texts(params@, decls), ", "@),
{
    let ghost start = out@;
    let ghost all = param_texts(params@, decls);
    let mut i: usize = 0;
    while i < params.len()
        invariant
            i <= params@.len(),
            all == param_texts(params@, decls),
            out@ == start + join_texts(all.take(i as int), ", "@),
        decreases params@.len() - i,
    {
        let ghost before = all.take(i as int);
        assert(all.take(i as int + 1).drop_last() == before);
        if i > 0 {
            push_text(out, ", ");
        }
        if decls {
            push_text(out, params[i].decl.as_str());
        } else {
            push_text(out, params[i].name.as_str());
        }
        proof {
            if i == 0 {
                assert(all.take(1) == seq![all[0]]);
            }
        }
        i = i + 1;
    }
    assert(all.take(params@.len() as int) == all);
}

/// The text of the generic arguments that name `params` in a type: empty
/// without parameters, else `<` the names separated by `, ` `>`.
pub open spec fn ty_generics_text(params: Seq<GenericParam>) -> Seq<char> {
    if params.len() == 0 {
        Seq::empty()
    } else {
        "<"@ + join_texts(param_texts(params, false), ", "@) + ">"@
    }
}

/// Appends the generic arguments that name `params`.
pub fn push_ty_generics(out: &mut String, params: &Vec<GenericParam>)
    ensures
        final(out)@ == old(out)@ + ty_generics_text(params@),
{
    if params.len() > 0 {
        push_text(out, "<");
        push_params(out, params, false);
        push_text(out, ">");
    }
}

/// The text that `wrap_in_dummy_mod` puts around an item.
pub open spec fn dummy_mod_text(item: Seq<char>) -> Seq<char> {
    "#[allow(unused_imports)]\nconst _: () = {\n    use diesel;\n\n"@ + item + "\n};\n"@
}

/// Wraps generated code in an anonymous constant, with `diesel` in scope.
pub fn wrap_in_dummy_mod(item: &str) -> (r: String)
    ensures
        r@ == dummy_mod_text(item@),
{
    let mut out = String::from_str("#[allow(unused_imports)]\nconst _: () = {\n    use diesel;\n\n");
    push_text(&mut out, item);
    push_text(&mut out, "\n};\n");
    out
}

/// The argument of `Option<T>`: for a path type whose last segment is
/// `Option` with angle-bracketed arguments, the last argument when it is a type.
pub open spec fn spec_option_ty_arg(ty: TypeModel) -> Option<TypeModel> {
    match ty.kind {
        TypeKind::Path(segs) => match segs@.last().arguments {
            PathArguments::AngleBracketed(args) => if segs@.last().ident@ == "Option"@ && args@.len() > 0 {
                match args@.last() {
                    GenericArgument::Type(t) => Some(t),
                    GenericArgument::Other(_) => None,
                }
            } else {
                None
            },
            _ => None,
        },
        TypeKind::Other => None,
    }
}

/// The `T` of a type written `Option<T>` (or `std::option::Option<T>`).
pub fn option_ty_arg(ty: &TypeModel) -> (r: Option<&TypeModel>)
    requires
        type_wf(*ty),
    ensures
        match r {
            Some(t) => spec_option_ty_arg(*ty) == Some(*t),
            None => spec_option_ty_arg(*ty) is None,
        },
{
    match &ty.kind {
        TypeKind::Path(segs) => {
            let last = &segs[segs.len() - 1];
            match &last.arguments {
                PathArguments::AngleBracketed(args) => {
                    if text_is(&last.ident, "Option") && args.len() > 0 {
                        match &args[args.len() - 1] {
                            GenericArgument::Type(t) => Some(t),
                            GenericArgument::Other(_) => None,
                        }
                    } else {
                        None
                    }
                },
                _ => None,
            }
        },
        TypeKind::Other => None,
    }
}

/// The `T` of `Option<T>`, or the type itself when it is not an option.
pub fn inner_of_option_ty(ty: &TypeModel) -> (r: &TypeModel)
    requires
        type_wf(*ty),
    ensures
        *r == match spec_option_ty_arg(*ty) {
            Some(t) => t,
            None => *ty,
        },
{
    match option_ty_arg(ty) {
        Some(t) => t,
        None => ty,
    }
}

/// Whether a type is written `Option<T>`.
pub fn is_option_ty(ty: &TypeModel) -> (r: bool)
    requires
        type_wf(*ty),
    ensures
        r == spec_option_ty_arg(*ty) is Some,
{
    option_ty_arg(ty).is_some()
}

/// Why a derive cannot produce code for an item.
#[derive(Debug)]
pub enum DeriveError {
    /// `foreign_derive` on a struct without fields.
    ForeignDeriveRequiresField,
    /// `foreign_derive` on an enum or a union.
    ForeignDeriveStructOnly,
}

/// The message shown for a derive error.
pub open spec fn derive_error_message(e: DeriveError) -> Seq<char> {
    match e {
        DeriveError::ForeignDeriveRequiresField => "foreign_derive requires at least one field"@,
        DeriveError::ForeignDeriveStructOnly => "foreign_derive can only be used with structs"@,
    }
}

impl DeriveError {
    /// The message to show for this error.
    pub fn message(&self) -> (r: String)
        ensures
            r@ == derive_error_message(*self),
    {
        match self {
            DeriveError::ForeignDeriveRequiresField => String::from_str("foreign_derive requires at least one field"),
            DeriveError::ForeignDeriveStructOnly => String::from_str("foreign_derive can only be used with structs"),
        }
    }
}

/// The type a derive implements its trait for: with `foreign_derive`, the
/// type of the struct's first field; otherwise the item itself, with its
/// generic parameters as arguments.
pub open spec fn spec_ty_for_foreign_derive(item: DeriveInput, foreign_derive: bool) -> Result<Seq<char>, DeriveError> {
    if foreign_derive {
        match item.data {
            Data::Struct(fields) => if fields@.len() > 0 {
                Ok(fields@[0].text@)
            } else {
                Err(DeriveError::ForeignDeriveRequiresField)
            },
            _ => Err(DeriveError::ForeignDeriveStructOnly),
        }
    } else {
        Ok(item.ident@ + ty_generics_text(item.generics.params@))
    }
}

/// The type a derive implements its trait for.
pub fn ty_for_foreign_derive(item: &DeriveInput, foreign_derive: bool) -> (r: Result<Type, DeriveError>)
    ensures
        match r {
            Ok(t) => spec_ty_for_foreign_derive(*item, foreign_derive) == Ok::<Seq<char>, DeriveError>(t@),
            Err(e) => spec_ty_for_foreign_derive(*item, foreign_derive) == Err::<Seq<char>, DeriveError>(e),
        },
{
    if foreign_derive {
        match &item.data {
            Data::Struct(fields) => if fields.len() > 0 {
                Ok(Type(fields[0].text.clone()))
            } else {
                Err(DeriveError::ForeignDeriveRequiresField)
            },
            _ => Err(DeriveError::ForeignDeriveStructOnly),
        }
    } else {
        let mut text = item.ident.clone();
        push_ty_generics(&mut text, &item.generics.params);
        Ok(Type(text))
    }
}

} // verus!
