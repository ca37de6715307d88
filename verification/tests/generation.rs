use ts_gen::context::{AliasDecl, CodegenContext, LiteralSetDecl, RenamedLocal};
use ts_gen::ir::{ModuleContext, RecordDecl, ScopeId, TypeParam, TypeRef};
use ts_gen::records::{
    generate_indexed_record, generate_record, generate_record_source,
    generate_string_literal_record, RecordWrapper,
};

fn decl(name: &str, type_params: &[&str], key_type: TypeRef, value_type: TypeRef) -> RecordDecl {
    RecordDecl {
        name: name.to_string(),
        type_params: type_params.iter().map(|p| TypeParam { name: p.to_string() }).collect(),
        key_type,
        value_type,
        body_scope: ScopeId::dummy(),
    }
}

fn ident(name: &str) -> TypeRef {
    TypeRef::Reference { segments: vec![name.to_string()], generic_args: Vec::new() }
}

fn empty_context(mono: bool) -> CodegenContext {
    CodegenContext {
        renamed_locals: Vec::new(),
        aliases: Vec::new(),
        string_literal_sets: Vec::new(),
        experimental_generic_mono: mono,
    }
}

#[test]
fn plain_record_source_is_rendered_exactly() {
    let d = decl("Labels", &[], TypeRef::String, TypeRef::String);
    let source = generate_record_source(&d, &ModuleContext::Global, None);
    assert_eq!(
        source,
        "#[wasm_bindgen] extern \"C\" { #[wasm_bindgen(extends = Object)] \
         #[derive(Debug, Clone, PartialEq, Eq)] pub type Labels; \
         #[wasm_bindgen(method, indexing_getter)] pub fn get(this: &Labels, key: &str,) -> String; \
         #[wasm_bindgen(catch, method, indexing_getter)] pub fn try_get(this: &Labels, key: &str,) -> Result<String, JsValue>; \
         #[wasm_bindgen(method, indexing_setter)] pub fn set(this: &Labels, key: &str, value: &str,); \
         } impl Default for Labels { fn default() -> Self { JsCast::unchecked_into(js_sys::Object::new()) } } \
         impl Labels { pub fn new() -> Self { Self::default() } } "
    );
}

#[test]
fn literal_record_source_is_rendered_exactly() {
    let d = decl("SingleLabel", &[], TypeRef::StringLiteral("name".to_string()), TypeRef::String);
    let source = generate_record_source(&d, &ModuleContext::Global, None);
    assert_eq!(
        source,
        "#[wasm_bindgen] extern \"C\" { #[wasm_bindgen(extends = Object)] \
         #[derive(Debug, Clone, PartialEq, Eq)] pub type SingleLabel; \
         #[wasm_bindgen(method, getter, js_name = \"name\")] pub fn get_name(this: &SingleLabel, ) -> String; \
         #[wasm_bindgen(catch, method, getter, js_name = \"name\")] pub fn try_get_name(this: &SingleLabel, ) -> Result<String, JsValue>; \
         #[wasm_bindgen(method, setter, js_name = \"name\")] pub fn set_name(this: &SingleLabel, value: &str,); \
         } "
    );
}

#[test]
fn generated_tokens_lex_and_keep_names() {
    let d = decl("Labels", &[], TypeRef::String, TypeRef::String);
    let tokens = generate_record(&d, &ModuleContext::Global, None).unwrap().to_string();
    assert!(tokens.contains("pub fn get"));
    assert!(tokens.contains("pub fn try_get"));
    assert!(tokens.contains("indexing_setter"));
    assert!(tokens.contains("Result < String , JsValue >"));
}

#[test]
fn unlexable_source_is_reported() {
    let d = decl("Bad\"Name", &[], TypeRef::String, TypeRef::String);
    assert!(generate_record(&d, &ModuleContext::Global, None).is_err());
}

#[test]
fn generic_records_bound_their_parameters() {
    let d = decl("Values", &["T"], TypeRef::String, ident("T"));
    let tokens = generate_record(&d, &ModuleContext::Global, None).unwrap().to_string();
    assert!(tokens.contains("pub type Values < T : :: wasm_bindgen :: JsGeneric >"));
    assert!(tokens.contains("impl < T : :: wasm_bindgen :: JsGeneric > Default for Values < T >"));
    assert!(tokens.contains("this : & Values < T >"));
    assert!(tokens.contains("value : & T"));
}

#[test]
fn monomorphized_generics_drop_the_bound() {
    let ctx = empty_context(true);
    let d = decl("Values", &["T"], TypeRef::String, ident("T"));
    let wrapper = RecordWrapper::new(&d, &ModuleContext::Global, Some(&ctx));
    assert_eq!(wrapper.type_generics, "<T>");
    assert_eq!(wrapper.type_args, "<T>");
    assert_eq!(wrapper.type_bounds, vec!["T".to_string()]);
    let plain = RecordWrapper::new(&d, &ModuleContext::Global, Some(&empty_context(false)));
    assert_eq!(plain.type_generics, "<T: ::wasm_bindgen::JsGeneric>");
}

#[test]
fn renamed_records_are_reexported_under_their_source_name() {
    let mut ctx = empty_context(false);
    ctx.renamed_locals.push(RenamedLocal {
        name: "Labels".to_string(),
        rust_name: "LabelsRecord".to_string(),
    });
    let d = decl("Labels", &[], TypeRef::String, TypeRef::String);
    let wrapper = RecordWrapper::new(&d, &ModuleContext::Global, Some(&ctx));
    assert_eq!(wrapper.rust_name, "LabelsRecord");
    assert_eq!(wrapper.rust_ident, "LabelsRecord");
    let tokens = generate_record(&d, &ModuleContext::Global, Some(&ctx)).unwrap().to_string();
    assert!(tokens.contains("pub use LabelsRecord as Labels ;"));
    assert!(tokens.contains("pub type LabelsRecord ;"));
}

#[test]
fn module_records_name_their_module() {
    let d = decl("Labels", &[], TypeRef::String, TypeRef::String);
    let module = ModuleContext::Module("./labels.js".to_string());
    let wrapper = RecordWrapper::new(&d, &module, None);
    assert_eq!(wrapper.extern_attr, "#[wasm_bindgen(module = \"./labels.js\")]");
    let tokens = generate_record(&d, &module, None).unwrap().to_string();
    assert!(tokens.contains("module = \"./labels.js\""));
}

#[test]
fn render_without_alias_or_construction() {
    let d = decl("Labels", &[], TypeRef::String, TypeRef::String);
    let wrapper = RecordWrapper::new(&d, &ModuleContext::Global, None);
    let text = wrapper.render("Labels", &vec!["g; ".to_string()], &vec!["s; ".to_string()], false);
    assert_eq!(
        text,
        "#[wasm_bindgen] extern \"C\" { #[wasm_bindgen(extends = Object)] \
         #[derive(Debug, Clone, PartialEq, Eq)] pub type Labels; g; s; } "
    );
}

#[test]
fn repeated_value_flavors_get_numeric_suffixes() {
    let d = decl(
        "Mixed",
        &[],
        TypeRef::String,
        TypeRef::Union(vec![
            TypeRef::Array(Box::new(TypeRef::String)),
            TypeRef::Array(Box::new(TypeRef::String)),
        ]),
    );
    let tokens = generate_record(&d, &ModuleContext::Global, None).unwrap().to_string();
    assert!(tokens.contains("fn get_slice_of_string <") || tokens.contains("fn get_slice_of_string ("));
    assert!(tokens.contains("fn get_slice_of_string_2 ("));
    assert!(tokens.contains("fn try_get_slice_of_string_2 ("));
    assert!(tokens.contains("fn set_slice_of_string_2 ("));
    assert!(tokens.contains("indexing_setter , slice_to_array"));
}

#[test]
fn reserved_literal_keys_are_prefixed() {
    let d = decl("Reserved", &[], TypeRef::StringLiteral("string".to_string()), TypeRef::Boolean);
    let tokens = generate_record(&d, &ModuleContext::Global, None).unwrap().to_string();
    assert!(tokens.contains("fn set_string_string ("));
    assert!(tokens.contains("js_name = \"string\""));
}

#[test]
fn aliased_literal_sets_use_property_accessors() {
    let mut ctx = empty_context(false);
    ctx.string_literal_sets.push(LiteralSetDecl {
        scope: ScopeId(0),
        name: "Label".to_string(),
        literals: vec!["primary".to_string(), "second-item".to_string()],
    });
    ctx.aliases.push(AliasDecl { scope: ScopeId(0), name: "Labels".to_string(), target: ident("Label") });
    let d = decl("Aliased", &[], ident("Labels"), TypeRef::String);
    let tokens = generate_record(&d, &ModuleContext::Global, Some(&ctx)).unwrap().to_string();
    assert!(tokens.contains("fn set_primary ("));
    assert!(tokens.contains("fn get_second_item ("));
    assert!(tokens.contains("js_name = \"second-item\""));
    assert!(!tokens.contains("fn new"));
}

#[test]
fn escaped_literal_keys_lex() {
    let d = decl("Odd", &[], TypeRef::StringLiteral("a\"b\\c".to_string()), TypeRef::Number);
    let tokens = generate_record(&d, &ModuleContext::Global, None).unwrap().to_string();
    assert!(tokens.contains("fn get_a_b_c ("));
}

#[test]
fn union_keys_name_key_flavor() {
    let d = decl("Flexible", &[], TypeRef::Union(vec![TypeRef::String, TypeRef::Number]), TypeRef::Boolean);
    let tokens = generate_record(&d, &ModuleContext::Global, None).unwrap().to_string();
    assert!(tokens.contains("fn get_string ("));
    assert!(tokens.contains("fn set_number ("));
    assert!(tokens.contains("key : f64"));
    assert!(tokens.contains("fn new"));
}

#[test]
fn step_functions_match_generate_record() {
    let d = decl("Labels", &[], TypeRef::String, TypeRef::Number);
    let wrapper = RecordWrapper::new(&d, &ModuleContext::Global, None);
    let indexed = generate_indexed_record(&d, &ModuleContext::Global, None, &wrapper);
    assert_eq!(indexed, generate_record_source(&d, &ModuleContext::Global, None));
    let literal = generate_string_literal_record(
        &d,
        &ModuleContext::Global,
        None,
        &wrapper,
        vec!["a".to_string(), "b".to_string()],
    );
    assert!(literal.contains("pub fn get_a(this: &Labels, ) -> f64; "));
    assert!(literal.contains("pub fn set_b(this: &Labels, value: f64,); "));
    assert!(!literal.contains("fn new"));
}

#[test]
fn tokens_are_the_lexed_source() {
    let d = decl(
        "Flexible",
        &["T"],
        TypeRef::Union(vec![TypeRef::String, TypeRef::Number]),
        TypeRef::Union(vec![TypeRef::Boolean, ident("T")]),
    );
    let tokens = generate_record(&d, &ModuleContext::Global, None).unwrap().to_string();
    let source = generate_record_source(&d, &ModuleContext::Global, None);
    let lexed: proc_macro2::TokenStream = source.parse().unwrap();
    assert_eq!(tokens, lexed.to_string());
}

#[test]
fn literal_accessors_follow_key_order_and_repeat() {
    let wrapper_decl = decl("Keys", &[], TypeRef::String, TypeRef::Union(vec![TypeRef::String, TypeRef::Boolean]));
    let wrapper = RecordWrapper::new(&wrapper_decl, &ModuleContext::Global, None);
    let source = generate_string_literal_record(
        &wrapper_decl,
        &ModuleContext::Global,
        None,
        &wrapper,
        vec!["b".to_string(), "a".to_string(), "b".to_string()],
    );
    let order = [
        "fn get_string_with_b(",
        "fn get_bool_with_b(",
        "fn get_string_with_a(",
        "fn get_bool_with_a(",
        "fn get_string_with_b_2(",
        "fn get_bool_with_b_2(",
        "fn set_string_with_b(",
        "fn set_bool_with_b(",
        "fn set_string_with_a(",
        "fn set_bool_with_a(",
        "fn set_string_with_b_2(",
        "fn set_bool_with_b_2(",
    ];
    let mut at = 0;
    for name in order {
        let found = source[at..].find(name).expect(name);
        at += found + name.len();
    }
    assert!(source.contains("fn try_get_string_with_b_2("));
}

#[test]
fn property_accessors_from_a_literal_token() {
    let mut used = vec!["get_name".to_string()];
    let mut getters = Vec::new();
    let mut setters = Vec::new();
    ts_gen::records::push_literal_accessors(
        &String::new(),
        &String::new(),
        &"Labels".to_string(),
        &"name".to_string(),
        &"\"name\"".to_string(),
        &TypeRef::String,
        false,
        &mut used,
        &mut getters,
        &mut setters,
    );
    assert_eq!(
        used,
        vec!["get_name".to_string(), "get_name_2".to_string(), "try_get_name_2".to_string(), "set_name".to_string()]
    );
    assert_eq!(
        getters,
        vec!["#[wasm_bindgen(method, getter, js_name = \"name\")] pub fn get_name_2(this: &Labels, ) -> String; \
              #[wasm_bindgen(catch, method, getter, js_name = \"name\")] pub fn try_get_name_2(this: &Labels, ) -> Result<String, JsValue>; "
            .to_string()]
    );
    assert_eq!(
        setters,
        vec!["#[wasm_bindgen(method, setter, js_name = \"name\")] pub fn set_name(this: &Labels, value: &str,); ".to_string()]
    );
}

#[test]
fn module_attribute_from_a_literal_token() {
    assert_eq!(
        ts_gen::records::module_extern_attr(&"\"./m.js\"".to_string()),
        "#[wasm_bindgen(module = \"./m.js\")]"
    );
}
