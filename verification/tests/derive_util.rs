use diesel::ast::{Data, DeriveInput, GenericArgument, GenericParam, Generics, PathArguments, PathSegment, TypeKind, TypeModel};
use diesel::syntax::{AttrError, Ident};
use diesel::util::{
    camel_to_snake, inner_of_option_ty, is_option_ty, option_ty_arg, suggest_attribute,
    ty_for_foreign_derive, wrap_in_dummy_mod, DeriveError,
};

fn path_ty(text: &str, segments: Vec<PathSegment>) -> TypeModel {
    TypeModel { text: text.to_string(), kind: TypeKind::Path(segments) }
}

fn plain(ident: &str) -> PathSegment {
    PathSegment { ident: ident.to_string(), arguments: PathArguments::Absent }
}

fn option_of(inner: TypeModel) -> TypeModel {
    let text = format!("Option<{}>", inner.text);
    path_ty(
        &text,
        vec![PathSegment {
            ident: "Option".to_string(),
            arguments: PathArguments::AngleBracketed(vec![GenericArgument::Type(inner)]),
        }],
    )
}

fn param(name: &str, decl: &str) -> GenericParam {
    GenericParam { name: name.to_string(), decl: decl.to_string() }
}

fn item(ident: &str, params: Vec<GenericParam>, where_clause: Option<Vec<String>>, data: Data) -> DeriveInput {
    DeriveInput { ident: ident.to_string(), generics: Generics { params, where_clause }, data }
}

#[test]
fn camel_to_snake_examples() {
    assert_eq!(camel_to_snake("FooBar"), "foo_bar");
    assert_eq!(camel_to_snake("User"), "user");
    assert_eq!(camel_to_snake("x"), "x");
    assert_eq!(camel_to_snake("HTTPRequest"), "h_t_t_p_request");
    assert_eq!(camel_to_snake("already_snake"), "already_snake");
}

#[test]
fn camel_to_snake_lowercases_unicode_after_the_first_character() {
    assert_eq!(camel_to_snake("AÉ"), "a_é");
}

#[test]
fn suggest_attribute_names_the_option() {
    let e = suggest_attribute(&Ident("tabel_name".to_string()));
    assert!(matches!(e, AttrError::UnknownOption(n) if n == "tabel_name"));
}

#[test]
fn option_types() {
    let i32_ty = path_ty("i32", vec![plain("i32")]);
    let opt = option_of(path_ty("i32", vec![plain("i32")]));
    assert!(is_option_ty(&opt));
    assert!(!is_option_ty(&i32_ty));
    assert_eq!(inner_of_option_ty(&opt).text, "i32");
    assert_eq!(inner_of_option_ty(&i32_ty).text, "i32");
    assert!(option_ty_arg(&i32_ty).is_none());
}

#[test]
fn qualified_option_path_counts_by_last_segment() {
    let inner = path_ty("String", vec![plain("String")]);
    let ty = path_ty(
        "std::option::Option<String>",
        vec![
            plain("std"),
            plain("option"),
            PathSegment {
                ident: "Option".to_string(),
                arguments: PathArguments::AngleBracketed(vec![GenericArgument::Type(inner)]),
            },
        ],
    );
    assert_eq!(inner_of_option_ty(&ty).text, "String");
}

#[test]
fn option_with_lifetime_last_is_not_an_option_type() {
    let ty = path_ty(
        "Option<'a>",
        vec![PathSegment {
            ident: "Option".to_string(),
            arguments: PathArguments::AngleBracketed(vec![GenericArgument::Other("'a".to_string())]),
        }],
    );
    assert!(!is_option_ty(&ty));
    let other = TypeModel { text: "&str".to_string(), kind: TypeKind::Other };
    assert!(!is_option_ty(&other));
}

#[test]
fn wrap_in_dummy_mod_text() {
    assert_eq!(
        wrap_in_dummy_mod("struct X;"),
        "#[allow(unused_imports)]\nconst _: () = {\n    use diesel;\n\nstruct X;\n};\n"
    );
}

#[test]
fn ty_for_foreign_derive_cases() {
    let generic = item("Wrapper", vec![param("'a", "'a"), param("T", "T: Clone")], None, Data::Struct(vec![]));
    assert_eq!(ty_for_foreign_derive(&generic, false).unwrap().0, "Wrapper<'a, T>");
    let plain_item = item("Plain", vec![], None, Data::Struct(vec![]));
    assert_eq!(ty_for_foreign_derive(&plain_item, false).unwrap().0, "Plain");
    let foreign = item("Proxy", vec![], None, Data::Struct(vec![path_ty("chrono::NaiveDate", vec![plain("chrono"), plain("NaiveDate")])]));
    assert_eq!(ty_for_foreign_derive(&foreign, true).unwrap().0, "chrono::NaiveDate");
    assert!(matches!(ty_for_foreign_derive(&plain_item, true), Err(DeriveError::ForeignDeriveRequiresField)));
    let en = item("E", vec![], None, Data::Enum);
    assert!(matches!(ty_for_foreign_derive(&en, true), Err(DeriveError::ForeignDeriveStructOnly)));
}

#[test]
fn from_sql_row_derive_text() {
    let it = item("Mood", vec![], None, Data::Enum);
    let text = diesel::from_sql_row::derive(it, false).unwrap();
    let expected = "#[allow(unused_imports)]\nconst _: () = {\n    use diesel;\n\n\
use diesel::deserialize::{self, FromSql, Queryable};\n\n\
impl<__ST, __DB> Queryable<__ST, __DB> for Mood\n\
where __DB: diesel::backend::Backend, __ST: diesel::sql_types::SingleValue, Self: FromSql<__ST, __DB>\n\
{\n    type Row = Self;\n\n    fn build(row: Self::Row) -> deserialize::Result<Self> {\n        Ok(row)\n    }\n}\n};\n";
    assert_eq!(text, expected);
}

#[test]
fn from_sql_row_derive_keeps_generics_and_where_clause() {
    let it = item("Wrap", vec![param("T", "T: Copy")], Some(vec!["T: Default".to_string()]), Data::Struct(vec![]));
    let text = diesel::from_sql_row::derive(it, false).unwrap();
    assert!(text.contains("impl<T: Copy, __ST, __DB> Queryable<__ST, __DB> for Wrap<T>\nwhere T: Default, __DB: diesel::backend::Backend"));
}

#[test]
fn from_sql_row_derive_for_foreign_type() {
    let it = item("Proxy", vec![], None, Data::Struct(vec![path_ty("u32", vec![plain("u32")])]));
    let text = diesel::from_sql_row::derive(it, true).unwrap();
    assert!(text.contains("Queryable<__ST, __DB> for u32\n"));
    let empty = item("Empty", vec![], None, Data::Union);
    assert!(matches!(diesel::from_sql_row::derive(empty, true), Err(DeriveError::ForeignDeriveStructOnly)));
}

#[test]
fn camel_to_snake_twice_is_once_on_ascii_names() {
    for name in ["FooBar", "HTTPRequest", "already_snake", "X", "aB_cD"] {
        let once = camel_to_snake(name);
        assert_eq!(camel_to_snake(&once), once);
    }
}
