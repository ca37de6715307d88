use ts_gen::context::{AliasDecl, CodegenContext, LiteralSetDecl, RenamedLocal};
use ts_gen::ir::{ScopeId, TypeRef};
use ts_gen::records::{
    is_finite_literal_key_type, is_union_type, record_type_name, string_literal_keys,
};
use ts_gen::signatures::type_alternatives;
use ts_gen::typemap::{
    join_strings, needs_slice_to_array, render_generic_bounds, rust_type, type_snake_name,
    TypePosition,
};

fn reference(segments: &[&str], generic_args: Vec<TypeRef>) -> TypeRef {
    TypeRef::Reference {
        segments: segments.iter().map(|s| s.to_string()).collect(),
        generic_args,
    }
}

fn ident(name: &str) -> TypeRef {
    reference(&[name], Vec::new())
}

fn context() -> CodegenContext {
    CodegenContext {
        renamed_locals: vec![RenamedLocal {
            name: "Values".to_string(),
            rust_name: "ValuesRecord".to_string(),
        }],
        aliases: vec![
            AliasDecl {
                scope: ScopeId(0),
                name: "Primitive".to_string(),
                target: TypeRef::Union(vec![TypeRef::String, TypeRef::Number]),
            },
            AliasDecl { scope: ScopeId(0), name: "Text".to_string(), target: TypeRef::String },
            AliasDecl {
                scope: ScopeId(0),
                name: "Known".to_string(),
                target: TypeRef::Union(vec![
                    TypeRef::StringLiteral("primary".to_string()),
                    TypeRef::StringLiteral("secondary".to_string()),
                ]),
            },
            AliasDecl { scope: ScopeId(0), name: "Colors".to_string(), target: ident("Color") },
            AliasDecl { scope: ScopeId(0), name: "Loop".to_string(), target: ident("Loop") },
            AliasDecl {
                scope: ScopeId(1),
                name: "Text".to_string(),
                target: TypeRef::Union(vec![TypeRef::String]),
            },
        ],
        string_literal_sets: vec![LiteralSetDecl {
            scope: ScopeId(0),
            name: "Color".to_string(),
            literals: vec!["red".to_string(), "green".to_string()],
        }],
        experimental_generic_mono: false,
    }
}

#[test]
fn type_names_of_primitives() {
    assert_eq!(record_type_name(&TypeRef::String), "string");
    assert_eq!(record_type_name(&TypeRef::Number), "number");
    assert_eq!(record_type_name(&TypeRef::Boolean), "bool");
    assert_eq!(record_type_name(&TypeRef::BigInt), "big_int");
    assert_eq!(record_type_name(&TypeRef::Any), "js_value");
    assert_eq!(record_type_name(&TypeRef::Null), "null");
    assert_eq!(record_type_name(&TypeRef::Union(vec![TypeRef::String])), "js_value");
    assert_eq!(type_snake_name(&TypeRef::String), "str");
    assert_eq!(type_snake_name(&TypeRef::Number), "f64");
}

#[test]
fn type_names_of_literals_and_wrappers() {
    assert_eq!(record_type_name(&TypeRef::StringLiteral("fooBar".to_string())), "string_foo_bar");
    assert_eq!(record_type_name(&TypeRef::StringLiteral("".to_string())), "string_empty");
    assert_eq!(record_type_name(&TypeRef::NumberLiteral(3.5f64.to_bits())), "number");
    assert_eq!(record_type_name(&TypeRef::BooleanLiteral(true)), "bool_true");
    assert_eq!(record_type_name(&TypeRef::BooleanLiteral(false)), "bool_false");
    assert_eq!(
        record_type_name(&TypeRef::Array(Box::new(TypeRef::String))),
        "slice_of_string"
    );
    assert_eq!(
        record_type_name(&TypeRef::Nullable(Box::new(TypeRef::Array(Box::new(TypeRef::Number))))),
        "optional_slice_of_number"
    );
}

#[test]
fn type_names_of_references_and_tuples() {
    assert_eq!(record_type_name(&ident("HTMLElement")), "html_element");
    assert_eq!(
        record_type_name(&reference(&["js_sys", "Promise"], vec![TypeRef::String])),
        "promise_of_string"
    );
    assert_eq!(
        record_type_name(&reference(&["Map"], vec![TypeRef::String, TypeRef::Number])),
        "map_of_string_and_number"
    );
    assert_eq!(record_type_name(&reference(&[], Vec::new())), "js_value");
    assert_eq!(
        record_type_name(&TypeRef::Tuple(vec![TypeRef::String, TypeRef::Boolean, TypeRef::Number])),
        "tuple_of_string_and_bool_and_number"
    );
    assert_eq!(record_type_name(&TypeRef::Tuple(Vec::new())), "tuple_of_");
}

#[test]
fn union_detection_follows_aliases() {
    let ctx = context();
    let scope = ScopeId(0);
    assert!(is_union_type(&TypeRef::Union(Vec::new()), None, scope, 0));
    assert!(!is_union_type(&TypeRef::String, Some(&ctx), scope, 0));
    assert!(is_union_type(&ident("Primitive"), Some(&ctx), scope, 0));
    assert!(!is_union_type(&ident("Primitive"), None, scope, 0));
    assert!(!is_union_type(&ident("Text"), Some(&ctx), scope, 0));
    assert!(is_union_type(&ident("Text"), Some(&ctx), ScopeId(1), 0));
    assert!(!is_union_type(&TypeRef::Union(Vec::new()), None, scope, 17));
    assert!(!is_union_type(&ident("Loop"), Some(&ctx), scope, 0));
}

#[test]
fn finite_key_types() {
    let ctx = context();
    let scope = ScopeId(0);
    assert!(is_finite_literal_key_type(&TypeRef::BooleanLiteral(true), None, scope, 0));
    assert!(is_finite_literal_key_type(
        &TypeRef::Union(vec![
            TypeRef::StringLiteral("a".to_string()),
            TypeRef::NumberLiteral(1.0f64.to_bits()),
        ]),
        None,
        scope,
        0
    ));
    assert!(!is_finite_literal_key_type(&TypeRef::Union(Vec::new()), None, scope, 0));
    assert!(!is_finite_literal_key_type(
        &TypeRef::Union(vec![TypeRef::StringLiteral("a".to_string()), TypeRef::String]),
        None,
        scope,
        0
    ));
    assert!(is_finite_literal_key_type(&ident("Color"), Some(&ctx), scope, 0));
    assert!(is_finite_literal_key_type(&ident("Colors"), Some(&ctx), scope, 0));
    assert!(is_finite_literal_key_type(&ident("Known"), Some(&ctx), scope, 0));
    assert!(!is_finite_literal_key_type(&ident("Color"), None, scope, 0));
    assert!(!is_finite_literal_key_type(&ident("Loop"), Some(&ctx), scope, 0));
    assert!(!is_finite_literal_key_type(&TypeRef::StringLiteral("a".to_string()), None, scope, 17));
}

#[test]
fn literal_keys_are_collected_in_order() {
    let ctx = context();
    let scope = ScopeId(0);
    let keys = string_literal_keys(
        &TypeRef::Union(vec![
            TypeRef::StringLiteral("b".to_string()),
            TypeRef::Union(vec![TypeRef::StringLiteral("a".to_string())]),
            ident("Color"),
        ]),
        Some(&ctx),
        scope,
        0,
    );
    assert_eq!(keys, Some(vec!["b".to_string(), "a".to_string(), "red".to_string(), "green".to_string()]));
    assert_eq!(string_literal_keys(&ident("Known"), Some(&ctx), scope, 0), Some(vec!["primary".to_string(), "secondary".to_string()]));
    assert_eq!(string_literal_keys(&ident("Colors"), Some(&ctx), scope, 0), Some(vec!["red".to_string(), "green".to_string()]));
    assert_eq!(string_literal_keys(&TypeRef::Union(Vec::new()), None, scope, 0), Some(Vec::new()));
}

#[test]
fn literal_keys_need_every_member_to_be_a_literal() {
    let ctx = context();
    let scope = ScopeId(0);
    assert_eq!(
        string_literal_keys(
            &TypeRef::Union(vec![TypeRef::StringLiteral("a".to_string()), TypeRef::String]),
            None,
            scope,
            0
        ),
        None
    );
    assert_eq!(string_literal_keys(&TypeRef::NumberLiteral(0), None, scope, 0), None);
    assert_eq!(string_literal_keys(&ident("Color"), None, scope, 0), None);
    assert_eq!(string_literal_keys(&ident("Loop"), Some(&ctx), scope, 0), None);
    assert_eq!(string_literal_keys(&TypeRef::StringLiteral("a".to_string()), None, scope, 17), None);
}

#[test]
fn alternatives_flatten_unions_and_aliases() {
    let ctx = context();
    let scope = ScopeId(0);
    let nested = TypeRef::Union(vec![
        TypeRef::String,
        TypeRef::Union(vec![TypeRef::Number, TypeRef::Boolean]),
        ident("Primitive"),
    ]);
    let names: Vec<String> = type_alternatives(&nested, Some(&ctx), scope, 0)
        .into_iter()
        .map(|t| record_type_name(t))
        .collect();
    assert_eq!(names, vec!["string", "number", "bool", "string", "number"]);
    let single: Vec<String> = type_alternatives(&ident("Text"), Some(&ctx), scope, 0)
        .into_iter()
        .map(|t| record_type_name(t))
        .collect();
    assert_eq!(single, vec!["text"]);
    assert!(type_alternatives(&TypeRef::Union(Vec::new()), None, scope, 0).is_empty());
}

#[test]
fn rust_types_by_position() {
    assert_eq!(rust_type(&TypeRef::String, TypePosition::Argument), "&str");
    assert_eq!(rust_type(&TypeRef::String, TypePosition::Return), "String");
    assert_eq!(rust_type(&TypeRef::Number, TypePosition::Argument), "f64");
    assert_eq!(rust_type(&TypeRef::BooleanLiteral(true), TypePosition::Return), "bool");
    assert_eq!(rust_type(&TypeRef::Any, TypePosition::Argument), "&JsValue");
    assert_eq!(rust_type(&TypeRef::Object, TypePosition::Return), "js_sys::Object");
    assert_eq!(
        rust_type(&TypeRef::Array(Box::new(TypeRef::String)), TypePosition::Argument),
        "&[String]"
    );
    assert_eq!(
        rust_type(&TypeRef::Array(Box::new(TypeRef::String)), TypePosition::Return),
        "Vec<String>"
    );
    assert_eq!(
        rust_type(&TypeRef::Nullable(Box::new(TypeRef::String)), TypePosition::Argument),
        "Option<&str>"
    );
    assert_eq!(
        rust_type(
            &reference(&["js_sys", "Map"], vec![TypeRef::String, TypeRef::Number]),
            TypePosition::Argument
        ),
        "&js_sys::Map<String, f64>"
    );
    assert_eq!(rust_type(&ident("T"), TypePosition::Return), "T");
}

#[test]
fn generic_bounds_and_joins() {
    assert_eq!(render_generic_bounds(&Vec::new()), "");
    assert_eq!(render_generic_bounds(&vec!["T".to_string()]), "<T>");
    assert_eq!(
        render_generic_bounds(&vec!["K: A".to_string(), "V".to_string()]),
        "<K: A, V>"
    );
    assert_eq!(join_strings(&vec!["a".to_string(), "b".to_string(), "c".to_string()], "::"), "a::b::c");
}

#[test]
fn slices_are_detected() {
    let s = TypeRef::String;
    let a = TypeRef::Array(Box::new(TypeRef::Number));
    assert!(!needs_slice_to_array(&vec![&s, &s]));
    assert!(needs_slice_to_array(&vec![&s, &a]));
    assert!(!needs_slice_to_array(&Vec::new()));
}

#[test]
fn context_lookups() {
    let ctx = context();
    assert_eq!(ctx.renamed_local(&"Values".to_string()).map(|s| s.as_str()), Some("ValuesRecord"));
    assert!(ctx.renamed_local(&"Other".to_string()).is_none());
    assert!(ctx.resolve_alias(&"Text".to_string(), ScopeId(0)).is_some());
    assert!(ctx.resolve_alias(&"Text".to_string(), ScopeId(2)).is_none());
    assert_eq!(
        ctx.resolve_string_literal_set(&"Color".to_string(), ScopeId(0)).map(|v| v.len()),
        Some(2)
    );
    assert!(ident("X").as_ident().is_some());
    assert!(reference(&["a", "B"], Vec::new()).as_ident().is_none());
    assert!(TypeRef::String.as_ident().is_none());
}
