//! `#[derive(FromSqlRow)]`: a `Queryable` implementation that returns the
//! value it was given.

use vstd::prelude::*;
use crate::ast::{DeriveInput, GenericParam};
use crate::util::{
    dummy_mod_text, join_texts, param_texts, push_params, push_text, spec_ty_for_foreign_derive,
    ty_for_foreign_derive, wrap_in_dummy_mod, DeriveError,
};

verus! {

/// The texts of a list of `where` predicates.
pub open spec fn pred_texts(ps: Seq<String>) -> Seq<Seq<char>> {
    ps.map_values(|p: String| p@)
}

/// The predicates of the item's `where` clause, or none when it has no clause.
pub open spec fn existing_preds(item: DeriveInput) -> Seq<Seq<char>> {
    match item.generics.where_clause {
        Some(ps) => pred_texts(ps@),
        None => Seq::empty(),
    }
}

/// The generic parameters of the generated impl: the item's own, then `__ST` and `__DB`.
pub open spec fn impl_param_texts(item: DeriveInput) -> Seq<Seq<char>> {
    param_texts(item.generics.params@, true) + seq!["__ST"@, "__DB"@]
}

/// The `where` predicates of the generated impl: the item's own, then the
/// bounds on `__DB`, `__ST` and `Self`.
pub open spec fn impl_pred_texts(item: DeriveInput) -> Seq<Seq<char>> {
    existing_preds(item) + seq![
        "__DB: diesel::backend::Backend"@,
        "__ST: diesel::sql_types::SingleValue"@,
        "Self: FromSql<__ST, __DB>"@,
    ]
}

/// The impl that the derive generates for `struct_ty`, before it is wrapped.
pub open spec fn queryable_impl_text(item: DeriveInput, struct_ty: Seq<char>) -> Seq<char> {
    "use diesel::deserialize::{self, FromSql, Queryable};\n\nimpl<"@ + join_texts(
        impl_param_texts(item),
        ", "@,
    ) + "> Queryable<__ST, __DB> for "@ + struct_ty + "\nwhere "@ + join_texts(
        impl_pred_texts(item),
        ", "@,
    ) + "\n{\n    type Row = Self;\n\n    fn build(row: Self::Row) -> deserialize::Result<Self> {\n        Ok(row)\n    }\n}"@
}

/// What the derive produces for `item`: the wrapped impl for the type of
/// `ty_for_foreign_derive`, or its error.
pub open spec fn spec_derive(item: DeriveInput, foreign_derive: bool) -> Result<Seq<char>, DeriveError> {
    match spec_ty_for_foreign_derive(item, foreign_derive) {
        Ok(ty) => Ok(dummy_mod_text(queryable_impl_text(item, ty))),
        Err(e) => Err(e),
    }
}

fn param(name: &str) -> (p: GenericParam)
    ensures
        p.name@ == name@,
        p.decl@ == name@,
{
    GenericParam { name: String::from_str(name), decl: String::from_str(name) }
}

fn push_preds(out: &mut String, preds: &Vec<String>)
    ensures
        final(out)@ == old(out)@ + join_texts(pred_texts(preds@), ", "@),
{
    let ghost start = out@;
    let ghost all = pred_texts(preds@);
    let mut i: usize = 0;
    while i < preds.len()
        invariant
            i <= preds@.len(),
            all == pred_texts(preds@),
            out@ == start + join_texts(all.take(i as int), ", "@),
        decreases preds@.len() - i,
    {
        assert(all.take(i as int + 1).drop_last() == all.take(i as int));
        if i > 0 {
            push_text(out, ", ");
        }
        push_text(out, preds[i].as_str());
        proof {
            if i == 0 {
                assert(all.take(1) == seq![all[0]]);
            }
        }
        i = i + 1;
    }
    assert(all.take(preds@.len() as int) == all);
}

/// Generates the `Queryable` impl of `#[derive(FromSqlRow)]` for `item`;
/// `foreign_derive` tells whether the struct carries `#[diesel(foreign_derive)]`.
pub fn derive(item: DeriveInput, foreign_derive: bool) -> (r: Result<String, DeriveError>)
    ensures
        match r {
            Ok(s) => spec_derive(item, foreign_derive) == Ok::<Seq<char>, DeriveError>(s@),
            Err(e) => spec_derive(item, foreign_derive) == Err::<Seq<char>, DeriveError>(e),
        },
{
    let ghost given = item;
    let struct_ty = match ty_for_foreign_derive(&item, foreign_derive) {
        Ok(t) => t,
        Err(e) => return Err(e),
    };
    let mut item = item;
    let ghost old_params = item.generics.params@;
    item.generics.params.push(param("__ST"));
    item.generics.params.push(param("__DB"));
    assert(param_texts(item.generics.params@, true) =~= impl_param_texts(given));
    let mut preds = match item.generics.where_clause.take() {
        Some(ps) => ps,
        None => Vec::new(),
    };
    assert(pred_texts(preds@) =~= existing_preds(given));
    preds.push(String::from_str("__DB: diesel::backend::Backend"));
    preds.push(String::from_str("__ST: diesel::sql_types::SingleValue"));
    preds.push(String::from_str("Self: FromSql<__ST, __DB>"));
    assert(pred_texts(preds@) =~= impl_pred_texts(given));
    let mut body = String::from_str("use diesel::deserialize::{self, FromSql, Queryable};\n\nimpl<");
    push_params(&mut body, &item.generics.params, true);
    push_text(&mut body, "> Queryable<__ST, __DB> for ");
    push_text(&mut body, struct_ty.0.as_str());
    push_text(&mut body, "\nwhere ");
    push_preds(&mut body, &preds);
    push_text(
        &mut body,
        "\n{\n    type Row = Self;\n\n    fn build(row: Self::Row) -> deserialize::Result<Self> {\n        Ok(row)\n    }\n}",
    );
    item.generics.where_clause = Some(preds);
    Ok(wrap_in_dummy_mod(body.as_str()))
}

} // verus!
