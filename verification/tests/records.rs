use ts_gen::ir::{ModuleContext, RecordDecl, ScopeId, TypeParam, TypeRef};
use ts_gen::records::generate_record;

fn record(key_type: TypeRef, value_type: TypeRef) -> RecordDecl {
    RecordDecl {
        name: "Values".to_string(),
        type_params: Vec::<TypeParam>::new(),
        key_type,
        value_type,
        body_scope: ScopeId::dummy(),
    }
}

fn tokens_of(decl: &RecordDecl) -> String {
    generate_record(decl, &ModuleContext::Global, None)
        .expect("generated bindings lex")
        .to_string()
}

#[test]
fn primitive_value_union_generates_value_named_accessors() {
    let decl = record(
        TypeRef::String,
        TypeRef::Union(vec![TypeRef::String, TypeRef::Number, TypeRef::Boolean]),
    );
    let tokens = tokens_of(&decl);

    assert!(tokens.contains("fn get_string"));
    assert!(tokens.contains("fn try_get_string"));
    assert!(tokens.contains("fn set_number"));
    assert!(!tokens.contains("catch , method , indexing_setter"));
}

#[test]
fn key_and_value_unions_name_value_before_key() {
    let decl = record(
        TypeRef::Union(vec![TypeRef::String, TypeRef::Number]),
        TypeRef::Union(vec![TypeRef::String, TypeRef::Boolean]),
    );
    let tokens = tokens_of(&decl);

    assert!(tokens.contains("fn get_string_with_string"));
    assert!(tokens.contains("fn get_bool_with_number"));
    assert!(tokens.contains("fn set_string_with_number"));
    assert!(!tokens.contains("get_number_as_bool"));
}

#[test]
fn string_literal_keys_generate_fixed_property_accessors() {
    let decl = record(
        TypeRef::Union(vec![
            TypeRef::StringLiteral("displayName".to_string()),
            TypeRef::StringLiteral("enabled".to_string()),
        ]),
        TypeRef::Union(vec![TypeRef::String, TypeRef::Boolean]),
    );
    let tokens = tokens_of(&decl);

    assert!(tokens.contains("fn get_string_with_display_name"));
    assert!(tokens.contains("fn try_get_bool_with_enabled"));
    assert!(tokens.contains("fn set_bool_with_display_name"));
    assert!(tokens.contains("getter , js_name = \"displayName\""));
    assert!(!tokens.contains("indexing_getter"));
    assert!(!tokens.contains("fn new"));
}

#[test]
fn singleton_string_literal_key_uses_fixed_property_accessors() {
    let decl = record(TypeRef::StringLiteral("name".to_string()), TypeRef::String);
    let tokens = tokens_of(&decl);

    assert!(tokens.contains("fn get_name"));
    assert!(tokens.contains("fn set_name"));
    assert!(!tokens.contains("key :"));
}

#[test]
fn empty_constructible_records_implement_default() {
    let decl = record(TypeRef::String, TypeRef::String);
    let tokens = tokens_of(&decl);

    assert!(tokens.contains("impl Default for Values"));
    assert!(tokens.contains("fn new"));
}

#[test]
fn finite_numeric_keys_do_not_allow_empty_construction() {
    let decl = record(
        TypeRef::Union(vec![
            TypeRef::NumberLiteral(1.0f64.to_bits()),
            TypeRef::NumberLiteral(2.0f64.to_bits()),
        ]),
        TypeRef::String,
    );
    let tokens = tokens_of(&decl);

    assert!(!tokens.contains("fn new"));
    assert!(!tokens.contains("impl Default"));
}

#[test]
fn nested_value_flavors_do_not_fall_back_to_numeric_suffixes() {
    let decl = record(
        TypeRef::String,
        TypeRef::Union(vec![
            TypeRef::Array(Box::new(TypeRef::String)),
            TypeRef::Array(Box::new(TypeRef::Number)),
        ]),
    );
    let tokens = tokens_of(&decl);

    assert!(tokens.contains("fn get_slice_of_string"));
    assert!(tokens.contains("fn get_slice_of_number"));
    assert!(!tokens.contains("get_slice_2"));
}
