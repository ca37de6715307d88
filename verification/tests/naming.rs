use ts_gen::naming::{contains_name, decimal_text, dedupe_name, to_snake_case};
use ts_gen::records::{normalized_literal_name, record_method_name, string_literal_method_name};
use ts_gen::render::{concat_strings, method_decl_text};
use ts_gen::ir::{ModuleContext, RecordDecl, ScopeId, TypeRef};
use ts_gen::records::RecordWrapper;
use ts_gen::text::{is_ascii_digit, is_ascii_lower, is_ascii_upper, to_lower};

#[test]
fn snake_case_splits_camel_case_words() {
    assert_eq!(to_snake_case("displayName"), "display_name");
    assert_eq!(to_snake_case("DisplayName"), "display_name");
    assert_eq!(to_snake_case("item2Name"), "item2_name");
}

#[test]
fn snake_case_keeps_acronyms_together() {
    assert_eq!(to_snake_case("HTTPServer"), "http_server");
    assert_eq!(to_snake_case("URL"), "url");
    assert_eq!(to_snake_case("parseURLQuery"), "parse_url_query");
}

#[test]
fn snake_case_collapses_separators() {
    assert_eq!(to_snake_case("already_snake"), "already_snake");
    assert_eq!(to_snake_case("foo-bar baz"), "foo_bar_baz");
    assert_eq!(to_snake_case("__x__"), "x");
    assert_eq!(to_snake_case("a..b"), "a_b");
}

#[test]
fn snake_case_drops_everything_outside_ascii_words() {
    assert_eq!(to_snake_case(""), "");
    assert_eq!(to_snake_case("!!!"), "");
    assert_eq!(to_snake_case("名前"), "");
}

#[test]
fn normalized_literal_name_is_never_empty() {
    assert_eq!(normalized_literal_name(""), "empty");
    assert_eq!(normalized_literal_name("***"), "empty");
    assert_eq!(normalized_literal_name("displayName"), "display_name");
}

#[test]
fn literal_names_that_read_as_flavors_get_a_prefix() {
    assert_eq!(string_literal_method_name("string"), "string_string");
    assert_eq!(string_literal_method_name("Number"), "string_number");
    assert_eq!(string_literal_method_name("typedArray"), "string_typed_array");
    assert_eq!(string_literal_method_name("js-value"), "string_js_value");
    assert_eq!(string_literal_method_name("function"), "string_function");
    assert_eq!(string_literal_method_name("name"), "name");
    assert_eq!(string_literal_method_name(""), "empty");
}

#[test]
fn record_method_names_follow_union_sides() {
    assert_eq!(record_method_name("get", "string", "number", false, false), "get");
    assert_eq!(record_method_name("get", "string", "number", true, false), "get_string");
    assert_eq!(record_method_name("set", "string", "number", false, true), "set_number");
    assert_eq!(record_method_name("set", "string", "number", true, true), "set_number_with_string");
}

#[test]
fn decimal_text_renders_numbers() {
    assert_eq!(decimal_text(0), "0");
    assert_eq!(decimal_text(7), "7");
    assert_eq!(decimal_text(10), "10");
    assert_eq!(decimal_text(1234), "1234");
}

#[test]
fn dedupe_keeps_a_free_name() {
    let mut used = vec!["set".to_string()];
    let name = dedupe_name(&"get".to_string(), &mut used);
    assert_eq!(name, "get");
    assert_eq!(used, vec!["set".to_string(), "get".to_string()]);
}

#[test]
fn dedupe_numbers_taken_names_from_two() {
    let mut used = vec!["get".to_string()];
    assert_eq!(dedupe_name(&"get".to_string(), &mut used), "get_2");
    assert_eq!(dedupe_name(&"get".to_string(), &mut used), "get_3");
    assert_eq!(used, vec!["get".to_string(), "get_2".to_string(), "get_3".to_string()]);
}

#[test]
fn dedupe_skips_every_taken_candidate() {
    let mut used = vec!["x_2".to_string(), "x".to_string(), "x_3".to_string()];
    assert_eq!(dedupe_name(&"x".to_string(), &mut used), "x_4");
}

#[test]
fn contains_name_compares_whole_names() {
    let used = vec!["get".to_string(), "set".to_string()];
    assert!(contains_name(&used, &"set".to_string()));
    assert!(!contains_name(&used, &"se".to_string()));
    assert!(!contains_name(&Vec::new(), &"get".to_string()));
}

#[test]
fn character_classes() {
    assert!(is_ascii_upper('Q'));
    assert!(!is_ascii_upper('q'));
    assert!(is_ascii_lower('q'));
    assert!(is_ascii_digit('9'));
    assert!(!is_ascii_digit('a'));
    assert_eq!(to_lower('A'), 'a');
    assert_eq!(to_lower('z'), 'z');
    assert_eq!(to_lower('-'), '-');
}

fn module_attr(module: &str) -> String {
    let decl = RecordDecl {
        name: "Values".to_string(),
        type_params: Vec::new(),
        key_type: TypeRef::String,
        value_type: TypeRef::String,
        body_scope: ScopeId::dummy(),
    };
    RecordWrapper::new(&decl, &ModuleContext::Module(module.to_string()), None).extern_attr
}

#[test]
fn string_literals_are_written_as_tokens() {
    assert_eq!(module_attr("plain"), "#[wasm_bindgen(module = \"plain\")]");
    assert_eq!(module_attr("a\"b"), "#[wasm_bindgen(module = \"a\\\"b\")]");
    assert_eq!(module_attr("back\\slash"), "#[wasm_bindgen(module = \"back\\\\slash\")]");
    assert_eq!(module_attr("l\nt\tr\r"), "#[wasm_bindgen(module = \"l\\nt\\tr\\r\")]");
    assert_eq!(module_attr("it's"), "#[wasm_bindgen(module = \"it's\")]");
    assert_eq!(module_attr("\u{1}"), "#[wasm_bindgen(module = \"\\u{1}\")]");
    assert_eq!(module_attr("\0x"), "#[wasm_bindgen(module = \"\\0x\")]");
    assert_eq!(module_attr("\u{0}7"), "#[wasm_bindgen(module = \"\\x007\")]");
    assert_eq!(module_attr(""), "#[wasm_bindgen(module = \"\")]");
}

#[test]
fn method_declarations_and_concatenation() {
    let decl = method_decl_text("method, getter", "get_x", "<T>", "Values<T>", "", " -> f64");
    assert_eq!(
        decl,
        "#[wasm_bindgen(method, getter)] pub fn get_x<T>(this: &Values<T>, ) -> f64; "
    );
    let parts = vec!["a".to_string(), "bc".to_string(), String::new(), "d".to_string()];
    assert_eq!(concat_strings(&parts), "abcd");
}
