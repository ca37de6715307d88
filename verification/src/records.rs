//! Named `Record<K, V>` alias generation.
use vstd::prelude::*;
use vstd::string::*;
use crate::ir::{ident_name, ModuleContext, RecordDecl, ScopeId, TypeParam, TypeRef};
use crate::context::CodegenContext;
use crate::naming::{names_view, snake_case, to_snake_case, fresh_name, dedupe_name};
use crate::text::push_char;
use crate::typemap::{
    type_snake_name, type_snake_name_spec, generic_bounds_text, render_generic_bounds, rust_type,
    rust_type_spec, TypePosition, needs_slice_to_array, needs_slice_to_array_spec,
};
use crate::tokens::{lex_tokens, lexes_as_tokens, lexed_tokens, string_literal_repr, string_literal_token};
use crate::signatures::{deref_all, type_alternatives, type_alternatives_spec};
use crate::render::{concat_all, concat_strings, method_decl, method_decl_text};

verus! {

// ---------------------------------------------------------------------------
// Method names
// ---------------------------------------------------------------------------

/// A literal turned into a method-name fragment: its snake-case form, or
/// `empty` when nothing of it survives.
pub open spec fn normalized_name_spec(literal: Seq<char>) -> Seq<char> {
    if snake_case(literal).len() == 0 {
        "empty"@
    } else {
        snake_case(literal)
    }
}

/// The flavor names that a value or key type can take in an accessor name.
pub open spec fn is_reserved_flavor(name: Seq<char>) -> bool {
    ||| name == "string"@
    ||| name == "number"@
    ||| name == "bool"@
    ||| name == "big_int"@
    ||| name == "undefined"@
    ||| name == "null"@
    ||| name == "js_value"@
    ||| name == "object"@
    ||| name == "typed_array"@
    ||| name == "slice"@
    ||| name == "function"@
}

/// The method-name fragment of a string literal key; one that would read as a
/// type flavor is prefixed with `string_`.
pub open spec fn literal_method_name_spec(literal: Seq<char>) -> Seq<char> {
    if is_reserved_flavor(normalized_name_spec(literal)) {
        "string_"@ + normalized_name_spec(literal)
    } else {
        normalized_name_spec(literal)
    }
}

/// The name of an indexed accessor: the flavor of each side that is a union
/// appears, the value's before the key's.
pub open spec fn method_name_spec(
    operation: Seq<char>,
    key: Seq<char>,
    value: Seq<char>,
    key_is_union: bool,
    value_is_union: bool,
) -> Seq<char> {
    if !key_is_union && !value_is_union {
        operation
    } else if key_is_union && !value_is_union {
        operation + "_"@ + key
    } else if !key_is_union && value_is_union {
        operation + "_"@ + value
    } else {
        operation + "_"@ + value + "_with_"@ + key
    }
}

/// The method-name fragment of a literal: its snake case, or `empty`.
pub fn normalized_literal_name(literal: &str) -> (res: String)
    ensures
        res@ == normalized_name_spec(literal@),
{
    let name = to_snake_case(literal);
    if name.unicode_len() == 0 {
        String::from_str("empty")
    } else {
        name
    }
}

/// Whether `name` is one of the type flavor names.
fn is_reserved_name(name: &String) -> (res: bool)
    ensures
        res == is_reserved_flavor(name@),
{
    *name == String::from_str("string") || *name == String::from_str("number") || *name
        == String::from_str("bool") || *name == String::from_str("big_int") || *name
        == String::from_str("undefined") || *name == String::from_str("null") || *name
        == String::from_str("js_value") || *name == String::from_str("object") || *name
        == String::from_str("typed_array") || *name == String::from_str("slice") || *name
        == String::from_str("function")
}

/// The method-name fragment of a string literal key.
pub fn string_literal_method_name(literal: &str) -> (res: String)
    ensures
        res@ == literal_method_name_spec(literal@),
{
    let name = normalized_literal_name(literal);
    if is_reserved_name(&name) {
        let mut res = String::from_str("string_");
        res.append(name.as_str());
        res
    } else {
        name
    }
}

/// The name of an indexed accessor for `operation` (`get` or `set`).
pub fn record_method_name(
    operation: &str,
    key: &str,
    value: &str,
    key_is_union: bool,
    value_is_union: bool,
) -> (res: String)
    ensures
        res@ == method_name_spec(operation@, key@, value@, key_is_union, value_is_union),
{
    let mut res = String::from_str(operation);
    if !key_is_union && !value_is_union {
    } else if key_is_union && !value_is_union {
        res.append("_");
        res.append(key);
    } else if !key_is_union && value_is_union {
        res.append("_");
        res.append(value);
    } else {
        res.append("_");
        res.append(value);
        res.append("_with_");
        res.append(key);
    }
    res
}


// ---------------------------------------------------------------------------
// Type flavor names
// ---------------------------------------------------------------------------

/// The flavor name of a primitive type.
pub open spec fn primitive_flavor(ty: TypeRef) -> Seq<char> {
    if type_snake_name_spec(ty) == "str"@ {
        "string"@
    } else if type_snake_name_spec(ty) == "f64"@ {
        "number"@
    } else {
        type_snake_name_spec(ty)
    }
}

/// The flavor name of a type as it appears in accessor names.
pub open spec fn type_name_spec(ty: TypeRef) -> Seq<char>
    decreases ty,
{
    match ty {
        TypeRef::StringLiteral(value) => "string_"@ + normalized_name_spec(value@),
        TypeRef::NumberLiteral(_) => "number"@,
        TypeRef::BooleanLiteral(value) => "bool_"@ + (if value {
            "true"@
        } else {
            "false"@
        }),
        TypeRef::Array(inner) => "slice_of_"@ + type_name_spec(*inner),
        TypeRef::Nullable(inner) => "optional_"@ + type_name_spec(*inner),
        TypeRef::Reference { segments, generic_args } => {
            let head = if segments@.len() == 0 {
                "js_value"@
            } else {
                snake_case(segments@.last()@)
            };
            if generic_args@.len() == 0 {
                head
            } else {
                head + "_of_"@ + type_names_joined(generic_args@)
            }
        },
        TypeRef::Tuple(members) => "tuple_of_"@ + type_names_joined(members@),
        _ => primitive_flavor(ty),
    }
}

/// The flavor names of `tys` joined by `_and_`.
pub open spec fn type_names_joined(tys: Seq<TypeRef>) -> Seq<char>
    decreases tys,
{
    if tys.len() == 0 {
        Seq::empty()
    } else if tys.len() == 1 {
        type_name_spec(tys[0])
    } else {
        type_names_joined(tys.subrange(0, tys.len() - 1)) + "_and_"@ + type_name_spec(
            tys[tys.len() - 1],
        )
    }
}

/// The flavor names of `tys`, joined by `_and_`.
fn joined_type_names(tys: &Vec<TypeRef>) -> (res: String)
    ensures
        res@ == type_names_joined(tys@),
    decreases tys@,
{
    let mut res = String::new();
    let mut i: usize = 0;
    while i < tys.len()
        invariant
            i <= tys@.len(),
            res@ == type_names_joined(tys@.subrange(0, i as int)),
        decreases tys@.len() - i,
    {
        assert(tys@.subrange(0, i + 1).subrange(0, i as int) =~= tys@.subrange(0, i as int));
        let name = record_type_name(&tys[i]);
        if i > 0 {
            res.append("_and_");
        }
        res.append(name.as_str());
        i = i + 1;
    }
    assert(tys@.subrange(0, tys@.len() as int) =~= tys@);
    res
}

/// The flavor name of `ty` in accessor names.
pub fn record_type_name(ty: &TypeRef) -> (res: String)
    ensures
        res@ == type_name_spec(*ty),
    decreases ty,
{
    match ty {
        TypeRef::StringLiteral(value) => {
            let mut res = String::from_str("string_");
            let name = normalized_literal_name(value.as_str());
            res.append(name.as_str());
            res
        },
        TypeRef::NumberLiteral(_) => String::from_str("number"),
        TypeRef::BooleanLiteral(value) => {
            let mut res = String::from_str("bool_");
            if *value {
                res.append("true");
            } else {
                res.append("false");
            }
            res
        },
        TypeRef::Array(inner) => {
            let mut res = String::from_str("slice_of_");
            let name = record_type_name(inner);
            res.append(name.as_str());
            res
        },
        TypeRef::Nullable(inner) => {
            let mut res = String::from_str("optional_");
            let name = record_type_name(inner);
            res.append(name.as_str());
            res
        },
        TypeRef::Reference { segments, generic_args } => {
            let mut head = if segments.len() == 0 {
                String::from_str("js_value")
            } else {
                to_snake_case(segments[segments.len() - 1].as_str())
            };
            if generic_args.len() == 0 {
                head
            } else {
                head.append("_of_");
                let joined = joined_type_names(generic_args);
                head.append(joined.as_str());
                head
            }
        },
        TypeRef::Tuple(members) => {
            let mut res = String::from_str("tuple_of_");
            let joined = joined_type_names(members);
            res.append(joined.as_str());
            res
        },
        _ => {
            let name = type_snake_name(ty);
            if name == String::from_str("str") {
                String::from_str("string")
            } else if name == String::from_str("f64") {
                String::from_str("number")
            } else {
                name
            }
        },
    }
}


// ---------------------------------------------------------------------------
// Key classification (alias chains are followed to a depth of 16)
// ---------------------------------------------------------------------------

/// The alias target that a plain identifier type resolves to.
pub open spec fn alias_of(ty: TypeRef, cgctx: Option<&CodegenContext>, scope: ScopeId) -> Option<TypeRef> {
    match (ident_name(ty), cgctx) {
        (Some(name), Some(ctx)) => ctx.alias(name, scope),
        _ => None,
    }
}

/// Whether `ty` is a union, directly or through aliases.
pub open spec fn is_union_spec(ty: TypeRef, cgctx: Option<&CodegenContext>, scope: ScopeId, depth: nat) -> bool
    decreases 17 - depth,
{
    if depth > 16 {
        false
    } else {
        match ty {
            TypeRef::Union(_) => true,
            _ => match alias_of(ty, cgctx, scope) {
                Some(target) => is_union_spec(target, cgctx, scope, depth + 1),
                None => false,
            },
        }
    }
}

/// Whether `ty` admits only finitely many keys: a literal, a non-empty union of
/// such types, a named string literal set, or an alias of one of these.
pub open spec fn is_finite_spec(ty: TypeRef, cgctx: Option<&CodegenContext>, scope: ScopeId, depth: nat) -> bool
    decreases 17 - depth,
{
    if depth > 16 {
        false
    } else {
        match ty {
            TypeRef::StringLiteral(_) => true,
            TypeRef::NumberLiteral(_) => true,
            TypeRef::BooleanLiteral(_) => true,
            TypeRef::Union(members) => members@.len() > 0 && (forall|i: int|
                0 <= i < members@.len() ==> is_finite_spec(
                    #[trigger] members@[i],
                    cgctx,
                    scope,
                    depth + 1,
                )),
            _ => match (ident_name(ty), cgctx) {
                (Some(name), Some(ctx)) => ctx.literal_set(name, scope) is Some || match ctx.alias(
                    name,
                    scope,
                ) {
                    Some(target) => is_finite_spec(target, cgctx, scope, depth + 1),
                    None => false,
                },
                _ => false,
            },
        }
    }
}

/// Whether `ty` is a union, following aliases from `depth` on.
pub fn is_union_type(ty: &TypeRef, cgctx: Option<&CodegenContext>, scope: ScopeId, depth: usize) -> (res: bool)
    ensures
        res == is_union_spec(*ty, cgctx, scope, depth as nat),
    decreases 17 - depth,
{
    if depth > 16 {
        return false;
    }
    match ty {
        TypeRef::Union(_) => true,
        _ => match ty.as_ident() {
            Some(name) => match cgctx {
                Some(ctx) => match ctx.resolve_alias(name, scope) {
                    Some(target) => is_union_type(target, cgctx, scope, depth + 1),
                    None => false,
                },
                None => false,
            },
            None => false,
        },
    }
}

/// Whether `ty` admits only finitely many keys, following aliases from `depth` on.
pub fn is_finite_literal_key_type(
    ty: &TypeRef,
    cgctx: Option<&CodegenContext>,
    scope: ScopeId,
    depth: usize,
) -> (res: bool)
    ensures
        res == is_finite_spec(*ty, cgctx, scope, depth as nat),
    decreases 17 - depth,
{
    if depth > 16 {
        return false;
    }
    match ty {
        TypeRef::StringLiteral(_) | TypeRef::NumberLiteral(_) | TypeRef::BooleanLiteral(_) => true,
        TypeRef::Union(members) => {
            if members.len() == 0 {
                return false;
            }
            let mut i: usize = 0;
            while i < members.len()
                invariant
                    depth <= 16,
                    *ty == TypeRef::Union(*members),
                    i <= members@.len(),
                    forall|j: int|
                        0 <= j < i ==> is_finite_spec(#[trigger] members@[j], cgctx, scope, depth as nat + 1),
                decreases members@.len() - i,
            {
                if !is_finite_literal_key_type(&members[i], cgctx, scope, depth + 1) {
                    assert(!is_finite_spec(members@[i as int], cgctx, scope, depth as nat + 1));
                    return false;
                }
                i = i + 1;
            }
            true
        },
        _ => {
            let name = match ty.as_ident() {
                Some(name) => name,
                None => return false,
            };
            let ctx = match cgctx {
                Some(ctx) => ctx,
                None => return false,
            };
            ctx.resolve_string_literal_set(name, scope).is_some() || match ctx.resolve_alias(
                name,
                scope,
            ) {
                Some(target) => is_finite_literal_key_type(target, cgctx, scope, depth + 1),
                None => false,
            }
        },
    }
}


/// The string literal keys of `ty`, in order, when every member of it is a
/// string literal (directly, through a named literal set, or through aliases).
pub open spec fn literal_keys_spec(ty: TypeRef, cgctx: Option<&CodegenContext>, scope: ScopeId, depth: nat) -> Option<Seq<Seq<char>>>
    decreases 17 - depth, 1nat, 0nat,
{
    if depth > 16 {
        None
    } else {
        match ty {
            TypeRef::StringLiteral(value) => Some(seq![value@]),
            TypeRef::Union(members) => member_literal_keys(members@, cgctx, scope, depth + 1),
            _ => match (ident_name(ty), cgctx) {
                (Some(name), Some(ctx)) => match ctx.literal_set(name, scope) {
                    Some(set) => Some(set),
                    None => match ctx.alias(name, scope) {
                        Some(target) => literal_keys_spec(target, cgctx, scope, depth + 1),
                        None => None,
                    },
                },
                _ => None,
            },
        }
    }
}

/// The literal keys of the union members `ms`, concatenated in order; none
/// when some member is not made of string literals.
pub open spec fn member_literal_keys(ms: Seq<TypeRef>, cgctx: Option<&CodegenContext>, scope: ScopeId, depth: nat) -> Option<Seq<Seq<char>>>
    decreases 18 - depth, 0nat, ms.len(),
{
    if depth > 17 {
        None
    } else if ms.len() == 0 {
        Some(Seq::empty())
    } else {
        match member_literal_keys(ms.subrange(0, ms.len() - 1), cgctx, scope, depth) {
            None => None,
            Some(acc) => match literal_keys_spec(ms[ms.len() - 1], cgctx, scope, depth) {
                None => None,
                Some(keys) => Some(acc + keys),
            },
        }
    }
}

proof fn lemma_member_keys_none_persists(
    ms: Seq<TypeRef>,
    cgctx: Option<&CodegenContext>,
    scope: ScopeId,
    depth: nat,
    i: int,
    j: int,
)
    requires
        0 <= i <= j <= ms.len(),
        member_literal_keys(ms.subrange(0, i), cgctx, scope, depth) is None,
    ensures
        member_literal_keys(ms.subrange(0, j), cgctx, scope, depth) is None,
    decreases j - i,
{
    if i < j {
        lemma_member_keys_none_persists(ms, cgctx, scope, depth, i, j - 1);
        assert(ms.subrange(0, j).subrange(0, j - 1) =~= ms.subrange(0, j - 1));
    }
}

/// A copy of a list of strings.
fn copy_strings(v: &Vec<String>) -> (res: Vec<String>)
    ensures
        res@ == v@,
{
    let mut res: Vec<String> = Vec::new();
    let mut i: usize = 0;
    while i < v.len()
        invariant
            i <= v@.len(),
            res@ == v@.subrange(0, i as int),
        decreases v@.len() - i,
    {
        res.push(v[i].clone());
        i = i + 1;
    }
    res
}

/// The string literal keys of `ty`, when it is made of string literals only.
pub fn string_literal_keys(
    ty: &TypeRef,
    cgctx: Option<&CodegenContext>,
    scope: ScopeId,
    depth: usize,
) -> (res: Option<Vec<String>>)
    ensures
        match res {
            Some(keys) => literal_keys_spec(*ty, cgctx, scope, depth as nat) == Some(names_view(keys@)),
            None => literal_keys_spec(*ty, cgctx, scope, depth as nat) is None,
        },
    decreases 17 - depth,
{
    if depth > 16 {
        return None;
    }
    match ty {
        TypeRef::StringLiteral(value) => {
            let mut keys: Vec<String> = Vec::new();
            keys.push(value.clone());
            assert(names_view(keys@) =~= seq![value@]);
            Some(keys)
        },
        TypeRef::Union(members) => {
            let ghost d = depth as nat + 1;
            let mut acc: Vec<String> = Vec::new();
            let mut i: usize = 0;
            while i < members.len()
                invariant
                    depth <= 16,
                    d == depth as nat + 1,
                    *ty == TypeRef::Union(*members),
                    i <= members@.len(),
                    member_literal_keys(members@.subrange(0, i as int), cgctx, scope, d) == Some(
                        names_view(acc@),
                    ),
                decreases members@.len() - i,
            {
                assert(members@.subrange(0, i + 1).subrange(0, i as int) =~= members@.subrange(
                    0,
                    i as int,
                ));
                match string_literal_keys(&members[i], cgctx, scope, depth + 1) {
                    None => {
                        proof {
                            lemma_member_keys_none_persists(
                                members@,
                                cgctx,
                                scope,
                                d,
                                i + 1,
                                members@.len() as int,
                            );
                            assert(members@.subrange(0, members@.len() as int) =~= members@);
                        }
                        return None;
                    },
                    Some(keys) => {
                        let mut keys = keys;
                        let ghost before = acc@;
                        let ghost added = keys@;
                        acc.append(&mut keys);
                        assert(names_view(acc@) =~= names_view(before) + names_view(added));
                    },
                }
                i = i + 1;
            }
            assert(members@.subrange(0, members@.len() as int) =~= members@);
            Some(acc)
        },
        _ => {
            let name = match ty.as_ident() {
                Some(name) => name,
                None => return None,
            };
            let ctx = match cgctx {
                Some(ctx) => ctx,
                None => return None,
            };
            match ctx.resolve_string_literal_set(name, scope) {
                Some(set) => Some(copy_strings(set)),
                None => match ctx.resolve_alias(name, scope) {
                    Some(target) => string_literal_keys(target, cgctx, scope, depth + 1),
                    None => None,
                },
            }
        },
    }
}


// ---------------------------------------------------------------------------
// The wrapper type
// ---------------------------------------------------------------------------

/// The `wasm_bindgen` attribute of an `extern` block imported from the module
/// whose specifier is written as the string literal token `module_text`.
pub open spec fn module_attr_text(module_text: Seq<char>) -> Seq<char> {
    "#[wasm_bindgen(module = "@ + module_text + ")]"@
}

/// Renders the `wasm_bindgen` attribute of a block imported from a module.
pub fn module_extern_attr(module_text: &String) -> (res: String)
    ensures
        res@ == module_attr_text(module_text@),
{
    let mut attr = String::from_str("#[wasm_bindgen(module = ");
    attr.append(module_text.as_str());
    attr.append(")]");
    attr
}

/// The `wasm_bindgen` attribute of the `extern` block.
pub open spec fn extern_attr_spec(module_context: ModuleContext) -> Seq<char> {
    match module_context {
        ModuleContext::Global => "#[wasm_bindgen]"@,
        ModuleContext::Module(module) => module_attr_text(string_literal_repr(module@)),
    }
}

/// The Rust name of the record: its renamed local name, if it has one.
pub open spec fn rust_name_spec(decl: RecordDecl, cgctx: Option<&CodegenContext>) -> Seq<char> {
    match cgctx {
        Some(ctx) => match ctx.renamed(decl.name@) {
            Some(name) => name,
            None => decl.name@,
        },
        None => decl.name@,
    }
}

pub open spec fn type_param_names(decl: RecordDecl) -> Seq<Seq<char>> {
    decl.type_params@.map_values(|p: TypeParam| p.name@)
}

/// Whether generics are monomorphized rather than bound by `JsGeneric`.
pub open spec fn generic_mono(cgctx: Option<&CodegenContext>) -> bool {
    match cgctx {
        Some(ctx) => ctx.experimental_generic_mono,
        None => false,
    }
}

pub open spec fn type_bound(name: Seq<char>, mono: bool) -> Seq<char> {
    if mono {
        name
    } else {
        name + ": ::wasm_bindgen::JsGeneric"@
    }
}

/// The bounds of the record's type parameters.
pub open spec fn type_bounds_spec(decl: RecordDecl, cgctx: Option<&CodegenContext>) -> Seq<Seq<char>> {
    bounds_of(type_param_names(decl), generic_mono(cgctx))
}

pub open spec fn bounds_of(names: Seq<Seq<char>>, mono: bool) -> Seq<Seq<char>> {
    names.map_values(|n: Seq<char>| type_bound(n, mono))
}

/// `<A, B>` when the record is generic.
pub open spec fn type_args_spec(decl: RecordDecl) -> Seq<char> {
    generic_bounds_text(type_param_names(decl))
}

/// `<A: bound, B: bound>` when the record is generic.
pub open spec fn type_generics_spec(decl: RecordDecl, cgctx: Option<&CodegenContext>) -> Seq<char> {
    generic_bounds_text(type_bounds_spec(decl, cgctx))
}

/// The receiver type of every generated method.
pub open spec fn this_type(decl: RecordDecl, cgctx: Option<&CodegenContext>) -> Seq<char> {
    rust_name_spec(decl, cgctx) + type_args_spec(decl)
}

/// What the generated wrapper type of a record is made of.
pub struct RecordWrapper {
    pub extern_attr: String,
    pub rust_name: String,
    pub rust_ident: String,
    pub type_args: String,
    pub type_bounds: Vec<String>,
    pub type_generics: String,
}

/// `pub use` of the wrapper under the source name, when the two differ.
pub open spec fn alias_text(rust_name: Seq<char>, rust_ident: Seq<char>, source_name: Seq<char>) -> Seq<char> {
    if rust_name != source_name {
        "pub use "@ + rust_ident + " as "@ + source_name + "; "@
    } else {
        Seq::empty()
    }
}

/// `Default` and `new` from an empty JavaScript object, when allowed.
pub open spec fn construction_text(
    rust_ident: Seq<char>,
    type_args: Seq<char>,
    type_generics: Seq<char>,
    supports_empty_construction: bool,
) -> Seq<char> {
    if supports_empty_construction {
        "impl"@ + type_generics + " Default for "@ + rust_ident + type_args
            + " { fn default() -> Self { JsCast::unchecked_into(js_sys::Object::new()) } } impl"@
            + type_generics + " "@ + rust_ident + type_args
            + " { pub fn new() -> Self { Self::default() } } "@
    } else {
        Seq::empty()
    }
}

/// The complete bindings of a record: the `extern` block declaring the
/// wrapper type and its accessors, the public alias, and the constructors.
pub open spec fn render_text(
    extern_attr: Seq<char>,
    rust_name: Seq<char>,
    rust_ident: Seq<char>,
    type_args: Seq<char>,
    type_generics: Seq<char>,
    source_name: Seq<char>,
    getters: Seq<Seq<char>>,
    setters: Seq<Seq<char>>,
    supports_empty_construction: bool,
) -> Seq<char> {
    extern_attr
        + " extern \"C\" { #[wasm_bindgen(extends = Object)] #[derive(Debug, Clone, PartialEq, Eq)] pub type "@
        + rust_ident + type_generics + "; "@ + concat_all(getters) + concat_all(setters) + "} "@
        + alias_text(rust_name, rust_ident, source_name) + construction_text(
        rust_ident,
        type_args,
        type_generics,
        supports_empty_construction,
    )
}

impl RecordWrapper {
    /// This wrapper is the one made for `decl`.
    pub open spec fn describes(
        self,
        decl: RecordDecl,
        module_context: ModuleContext,
        cgctx: Option<&CodegenContext>,
    ) -> bool {
        &&& self.extern_attr@ == extern_attr_spec(module_context)
        &&& self.rust_name@ == rust_name_spec(decl, cgctx)
        &&& self.rust_ident@ == rust_name_spec(decl, cgctx)
        &&& self.type_args@ == type_args_spec(decl)
        &&& names_view(self.type_bounds@) == type_bounds_spec(decl, cgctx)
        &&& self.type_generics@ == type_generics_spec(decl, cgctx)
    }

    /// The wrapper type of `decl`.
    pub fn new(
        decl: &RecordDecl,
        module_context: &ModuleContext,
        cgctx: Option<&CodegenContext>,
    ) -> (res: RecordWrapper)
        ensures
            res.describes(*decl, *module_context, cgctx),
    {
        let extern_attr = match module_context {
            ModuleContext::Global => String::from_str("#[wasm_bindgen]"),
            ModuleContext::Module(module) => {
                let module_text = string_literal_token(module.as_str());
                module_extern_attr(&module_text)
            },
        };
        let renamed = match cgctx {
            Some(ctx) => ctx.renamed_local(&decl.name),
            None => None,
        };
        let rust_name = match renamed {
            Some(name) => name.clone(),
            None => decl.name.clone(),
        };
        let rust_ident = rust_name.clone();
        let per_mono = match cgctx {
            Some(ctx) => ctx.experimental_generic_mono,
            None => false,
        };
        let ghost names = type_param_names(*decl);
        let mut idents: Vec<String> = Vec::new();
        let mut bounds: Vec<String> = Vec::new();
        let mut i: usize = 0;
        while i < decl.type_params.len()
            invariant
                i <= decl.type_params@.len(),
                names == type_param_names(*decl),
                per_mono == generic_mono(cgctx),
                names_view(idents@) == names.subrange(0, i as int),
                names_view(bounds@) == bounds_of(names.subrange(0, i as int), per_mono),
            decreases decl.type_params@.len() - i,
        {
            let ident = decl.type_params[i].name.clone();
            let bound = if per_mono {
                ident.clone()
            } else {
                let mut b = ident.clone();
                b.append(": ::wasm_bindgen::JsGeneric");
                b
            };
            assert(names[i as int] == ident@);
            assert(bound@ == type_bound(ident@, per_mono));
            let ghost before_idents = idents@;
            let ghost before_bounds = bounds@;
            idents.push(ident);
            bounds.push(bound);
            assert(names_view(idents@) =~= names.subrange(0, i + 1));
            assert(names_view(bounds@) =~= names_view(before_bounds).push(bound@));
            assert(names.subrange(0, i + 1) =~= names.subrange(0, i as int).push(names[i as int]));
            assert(bounds_of(names.subrange(0, i as int).push(names[i as int]), per_mono)
                =~= bounds_of(names.subrange(0, i as int), per_mono).push(type_bound(names[i as int], per_mono)));
            i = i + 1;
        }
        assert(names.subrange(0, decl.type_params@.len() as int) =~= names);
        let type_args = render_generic_bounds(&idents);
        let type_generics = render_generic_bounds(&bounds);
        RecordWrapper { extern_attr, rust_name, rust_ident, type_args, type_bounds: bounds, type_generics }
    }

    /// The complete bindings around the given getter and setter declarations.
    pub fn render(
        &self,
        source_name: &str,
        getters: &Vec<String>,
        setters: &Vec<String>,
        supports_empty_construction: bool,
    ) -> (res: String)
        ensures
            res@ == render_text(
                self.extern_attr@,
                self.rust_name@,
                self.rust_ident@,
                self.type_args@,
                self.type_generics@,
                source_name@,
                names_view(getters@),
                names_view(setters@),
                supports_empty_construction,
            ),
    {
        let mut res = self.extern_attr.clone();
        res.append(
            " extern \"C\" { #[wasm_bindgen(extends = Object)] #[derive(Debug, Clone, PartialEq, Eq)] pub type ",
        );
        res.append(self.rust_ident.as_str());
        res.append(self.type_generics.as_str());
        res.append("; ");
        let gs = concat_strings(getters);
        res.append(gs.as_str());
        let ss = concat_strings(setters);
        res.append(ss.as_str());
        res.append("} ");
        let source = String::from_str(source_name);
        let mut alias = String::new();
        if !(self.rust_name == source) {
            alias.append("pub use ");
            alias.append(self.rust_ident.as_str());
            alias.append(" as ");
            alias.append(source_name);
            alias.append("; ");
        }
        res.append(alias.as_str());
        let mut construction = String::new();
        if supports_empty_construction {
            construction.append("impl");
            construction.append(self.type_generics.as_str());
            construction.append(" Default for ");
            construction.append(self.rust_ident.as_str());
            construction.append(self.type_args.as_str());
            construction.append(
                " { fn default() -> Self { JsCast::unchecked_into(js_sys::Object::new()) } } impl",
            );
            construction.append(self.type_generics.as_str());
            construction.append(" ");
            construction.append(self.rust_ident.as_str());
            construction.append(self.type_args.as_str());
            construction.append(" { pub fn new() -> Self { Self::default() } } ");
        }
        res.append(construction.as_str());
        res
    }
}


// ---------------------------------------------------------------------------
// Accessors
// ---------------------------------------------------------------------------

/// Taken method names, getter declarations, setter declarations.
pub type AccessorState = (Seq<Seq<char>>, Seq<Seq<char>>, Seq<Seq<char>>);

/// `name: Type` for a parameter of a generated method.
pub open spec fn param_text(name: Seq<char>, ty: TypeRef) -> Seq<char> {
    name + ": "@ + rust_type_spec(ty, TypePosition::Argument)
}

/// The extra `wasm_bindgen` argument of a setter whose parameters include a slice.
pub open spec fn slice_attr(needed: bool) -> Seq<char> {
    if needed {
        ", slice_to_array"@
    } else {
        Seq::empty()
    }
}

/// The getter `g` and its fallible twin `t` that read the value at a key.
pub open spec fn indexed_getter_text(
    generics: Seq<char>,
    this_ty: Seq<char>,
    g: Seq<char>,
    t: Seq<char>,
    key: TypeRef,
    value: TypeRef,
) -> Seq<char> {
    let params = param_text("key"@, key) + ","@;
    let ret = rust_type_spec(value, TypePosition::Return);
    method_decl("method, indexing_getter"@, g, generics, this_ty, params, " -> "@ + ret)
        + method_decl(
        "catch, method, indexing_getter"@,
        t,
        generics,
        this_ty,
        params,
        " -> Result<"@ + ret + ", JsValue>"@,
    )
}

/// The setter `s` that writes the value at a key.
pub open spec fn indexed_setter_text(
    generics: Seq<char>,
    this_ty: Seq<char>,
    s: Seq<char>,
    key: TypeRef,
    value: TypeRef,
) -> Seq<char> {
    method_decl(
        "method, indexing_setter"@ + slice_attr(needs_slice_to_array_spec(seq![key, value])),
        s,
        generics,
        this_ty,
        param_text("key"@, key) + ", "@ + param_text("value"@, value) + ","@,
        Seq::empty(),
    )
}

/// The accessors of one (key, value) signature of an indexed record, named
/// after the flavors of the union sides and made unique against `st.0`.
pub open spec fn indexed_step(
    generics: Seq<char>,
    this_ty: Seq<char>,
    st: AccessorState,
    key: TypeRef,
    value: TypeRef,
    key_is_union: bool,
    value_is_union: bool,
) -> AccessorState {
    let key_name = type_name_spec(key);
    let value_name = type_name_spec(value);
    let g = fresh_name(method_name_spec("get"@, key_name, value_name, key_is_union, value_is_union), st.0);
    let used1 = st.0.push(g);
    let t = fresh_name("try_"@ + g, used1);
    let used2 = used1.push(t);
    let s = fresh_name(method_name_spec("set"@, key_name, value_name, key_is_union, value_is_union), used2);
    (
        used2.push(s),
        st.1.push(indexed_getter_text(generics, this_ty, g, t, key, value)),
        st.2.push(indexed_setter_text(generics, this_ty, s, key, value)),
    )
}

/// The accessors for `key` with each of the value alternatives `vs`, in order.
pub open spec fn indexed_fold_values(
    generics: Seq<char>,
    this_ty: Seq<char>,
    st: AccessorState,
    key: TypeRef,
    vs: Seq<TypeRef>,
    key_is_union: bool,
    value_is_union: bool,
) -> AccessorState
    decreases vs.len(),
{
    if vs.len() == 0 {
        st
    } else {
        indexed_step(
            generics,
            this_ty,
            indexed_fold_values(generics, this_ty, st, key, vs.subrange(0, vs.len() - 1), key_is_union, value_is_union),
            key,
            vs[vs.len() - 1],
            key_is_union,
            value_is_union,
        )
    }
}

/// The accessors for every key alternative in `ks` (outer) and value
/// alternative in `vs` (inner).
pub open spec fn indexed_fold(
    generics: Seq<char>,
    this_ty: Seq<char>,
    ks: Seq<TypeRef>,
    vs: Seq<TypeRef>,
    key_is_union: bool,
    value_is_union: bool,
) -> AccessorState
    decreases ks.len(),
{
    if ks.len() == 0 {
        (Seq::empty(), Seq::empty(), Seq::empty())
    } else {
        indexed_fold_values(
            generics,
            this_ty,
            indexed_fold(generics, this_ty, ks.subrange(0, ks.len() - 1), vs, key_is_union, value_is_union),
            ks[ks.len() - 1],
            vs,
            key_is_union,
            value_is_union,
        )
    }
}

pub open spec fn state_of(used: Seq<String>, getters: Seq<String>, setters: Seq<String>) -> AccessorState {
    (names_view(used), names_view(getters), names_view(setters))
}

/// Renders `name: Type` for a parameter.
fn param_string(name: &str, ty: &TypeRef) -> (res: String)
    ensures
        res@ == param_text(name@, *ty),
{
    let mut res = String::from_str(name);
    res.append(": ");
    let t = rust_type(ty, TypePosition::Argument);
    res.append(t.as_str());
    res
}

/// Adds the accessors of one (key, value) signature of an indexed record.
#[verifier::spinoff_prover]
#[verifier::rlimit(40)]
fn push_indexed_accessors(
    generics: &String,
    this_ty: &String,
    key: &TypeRef,
    value: &TypeRef,
    key_is_union: bool,
    value_is_union: bool,
    used: &mut Vec<String>,
    getters: &mut Vec<String>,
    setters: &mut Vec<String>,
)
    ensures
        state_of(final(used)@, final(getters)@, final(setters)@) == indexed_step(
            generics@,
            this_ty@,
            state_of(old(used)@, old(getters)@, old(setters)@),
            *key,
            *value,
            key_is_union,
            value_is_union,
        ),
{
    let key_name = record_type_name(key);
    let value_name = record_type_name(value);
    let getter_base = record_method_name("get", key_name.as_str(), value_name.as_str(), key_is_union, value_is_union);
    let ghost u0 = used@;
    let getter_name = dedupe_name(&getter_base, used);
    assert(names_view(used@) =~= names_view(u0).push(getter_name@));
    let ghost u1 = used@;
    let mut try_base = String::from_str("try_");
    try_base.append(getter_name.as_str());
    let try_getter_name = dedupe_name(&try_base, used);
    assert(names_view(used@) =~= names_view(u1).push(try_getter_name@));
    let ghost u2 = used@;
    let mut key_param = param_string("key", key);
    key_param.append(",");
    let return_type = rust_type(value, TypePosition::Return);
    let mut ret = String::from_str(" -> ");
    ret.append(return_type.as_str());
    let mut try_ret = String::from_str(" -> Result<");
    try_ret.append(return_type.as_str());
    try_ret.append(", JsValue>");
    let mut getter = method_decl_text(
        "method, indexing_getter",
        getter_name.as_str(),
        generics.as_str(),
        this_ty.as_str(),
        key_param.as_str(),
        ret.as_str(),
    );
    let try_getter = method_decl_text(
        "catch, method, indexing_getter",
        try_getter_name.as_str(),
        generics.as_str(),
        this_ty.as_str(),
        key_param.as_str(),
        try_ret.as_str(),
    );
    getter.append(try_getter.as_str());

    let setter_base = record_method_name("set", key_name.as_str(), value_name.as_str(), key_is_union, value_is_union);
    let setter_name = dedupe_name(&setter_base, used);
    assert(names_view(used@) =~= names_view(u2).push(setter_name@));
    let mut params_tys: Vec<&TypeRef> = Vec::new();
    params_tys.push(key);
    params_tys.push(value);
    assert(deref_all(params_tys@) =~= seq![*key, *value]);
    let mut attr = String::from_str("method, indexing_setter");
    if needs_slice_to_array(&params_tys) {
        attr.append(", slice_to_array");
    }
    assert(attr@ =~= "method, indexing_setter"@ + slice_attr(needs_slice_to_array_spec(seq![*key, *value])));
    let mut params = param_string("key", key);
    params.append(", ");
    let value_param = param_string("value", value);
    params.append(value_param.as_str());
    params.append(",");
    let setter = method_decl_text(
        attr.as_str(),
        setter_name.as_str(),
        generics.as_str(),
        this_ty.as_str(),
        params.as_str(),
        String::new().as_str(),
    );
    let ghost g0 = getters@;
    let ghost s0 = setters@;
    getters.push(getter);
    setters.push(setter);
    assert(names_view(getters@) =~= names_view(g0).push(getters@.last()@));
    assert(names_view(setters@) =~= names_view(s0).push(setters@.last()@));
}


/// The bindings of a record keyed by an open type: an indexing getter, its
/// fallible twin and an indexing setter for each (key, value) signature.
/// Empty construction is offered unless the key type is a finite set.
pub open spec fn indexed_record_text(
    decl: RecordDecl,
    module_context: ModuleContext,
    cgctx: Option<&CodegenContext>,
) -> Seq<char> {
    let st = indexed_state(decl, cgctx);
    render_text(
        extern_attr_spec(module_context),
        rust_name_spec(decl, cgctx),
        rust_name_spec(decl, cgctx),
        type_args_spec(decl),
        type_generics_spec(decl, cgctx),
        decl.name@,
        st.1,
        st.2,
        !is_finite_spec(decl.key_type, cgctx, decl.body_scope, 0),
    )
}

/// The accessors of an indexed record.
pub open spec fn indexed_state(decl: RecordDecl, cgctx: Option<&CodegenContext>) -> AccessorState {
    let scope = decl.body_scope;
    indexed_fold(
        type_generics_spec(decl, cgctx),
        this_type(decl, cgctx),
        type_alternatives_spec(decl.key_type, cgctx, scope, 0),
        type_alternatives_spec(decl.value_type, cgctx, scope, 0),
        is_union_spec(decl.key_type, cgctx, scope, 0),
        is_union_spec(decl.value_type, cgctx, scope, 0),
    )
}

/// Renders a record keyed by an open type.
#[verifier::spinoff_prover]
#[verifier::rlimit(40)]
pub fn generate_indexed_record(
    decl: &RecordDecl,
    module_context: &ModuleContext,
    cgctx: Option<&CodegenContext>,
    wrapper: &RecordWrapper,
) -> (res: String)
    requires
        wrapper.describes(*decl, *module_context, cgctx),
    ensures
        res@ == indexed_record_text(*decl, *module_context, cgctx),
{
    let scope = decl.body_scope;
    let key_alts = type_alternatives(&decl.key_type, cgctx, scope, 0);
    let value_alts = type_alternatives(&decl.value_type, cgctx, scope, 0);
    let key_is_union = is_union_type(&decl.key_type, cgctx, scope, 0);
    let value_is_union = is_union_type(&decl.value_type, cgctx, scope, 0);
    let generics = render_generic_bounds(&wrapper.type_bounds);
    let mut this_ty = wrapper.rust_ident.clone();
    this_ty.append(wrapper.type_args.as_str());
    let ghost ks = deref_all(key_alts@);
    let ghost vs = deref_all(value_alts@);
    let mut used: Vec<String> = Vec::new();
    let mut getters: Vec<String> = Vec::new();
    let mut setters: Vec<String> = Vec::new();
    assert(state_of(used@, getters@, setters@) =~= indexed_fold(generics@, this_ty@, ks.subrange(0, 0), vs, key_is_union, value_is_union));
    let mut i: usize = 0;
    while i < key_alts.len()
        invariant
            i <= key_alts@.len(),
            ks == deref_all(key_alts@),
            vs == deref_all(value_alts@),
            state_of(used@, getters@, setters@) == indexed_fold(
                generics@,
                this_ty@,
                ks.subrange(0, i as int),
                vs,
                key_is_union,
                value_is_union,
            ),
        decreases key_alts@.len() - i,
    {
        let ghost before = indexed_fold(generics@, this_ty@, ks.subrange(0, i as int), vs, key_is_union, value_is_union);
        assert(vs.subrange(0, 0) =~= Seq::<TypeRef>::empty());
        let mut j: usize = 0;
        while j < value_alts.len()
            invariant
                i < key_alts@.len(),
                j <= value_alts@.len(),
                ks == deref_all(key_alts@),
                vs == deref_all(value_alts@),
                state_of(used@, getters@, setters@) == indexed_fold_values(
                    generics@,
                    this_ty@,
                    before,
                    ks[i as int],
                    vs.subrange(0, j as int),
                    key_is_union,
                    value_is_union,
                ),
            decreases value_alts@.len() - j,
        {
            assert(vs.subrange(0, j + 1).subrange(0, j as int) =~= vs.subrange(0, j as int));
            push_indexed_accessors(
                &generics,
                &this_ty,
                key_alts[i],
                value_alts[j],
                key_is_union,
                value_is_union,
                &mut used,
                &mut getters,
                &mut setters,
            );
            j = j + 1;
        }
        assert(vs.subrange(0, value_alts@.len() as int) =~= vs);
        assert(ks.subrange(0, i + 1).subrange(0, i as int) =~= ks.subrange(0, i as int));
        i = i + 1;
    }
    assert(ks.subrange(0, key_alts@.len() as int) =~= ks);
    let supports_empty_construction = !is_finite_literal_key_type(&decl.key_type, cgctx, scope, 0);
    wrapper.render(decl.name.as_str(), &getters, &setters, supports_empty_construction)
}


/// The getter `g` and its fallible twin `t` for the property whose name is
/// written as the string literal token `literal_text`.
pub open spec fn literal_getter_text(
    type_generics: Seq<char>,
    this_ty: Seq<char>,
    g: Seq<char>,
    t: Seq<char>,
    literal_text: Seq<char>,
    value: TypeRef,
) -> Seq<char> {
    let ret = rust_type_spec(value, TypePosition::Return);
    let js_name = "js_name = "@ + literal_text;
    method_decl("method, getter, "@ + js_name, g, type_generics, this_ty, Seq::empty(), " -> "@ + ret)
        + method_decl(
        "catch, method, getter, "@ + js_name,
        t,
        type_generics,
        this_ty,
        Seq::empty(),
        " -> Result<"@ + ret + ", JsValue>"@,
    )
}

/// The setter `s` for the property whose name is written as the string
/// literal token `literal_text`.
pub open spec fn literal_setter_text(
    generics: Seq<char>,
    this_ty: Seq<char>,
    s: Seq<char>,
    literal_text: Seq<char>,
    value: TypeRef,
) -> Seq<char> {
    method_decl(
        "method, setter, js_name = "@ + literal_text + slice_attr(
            needs_slice_to_array_spec(seq![value]),
        ),
        s,
        generics,
        this_ty,
        param_text("value"@, value) + ","@,
        Seq::empty(),
    )
}

/// The base name of a property accessor: the value flavor appears only when
/// the value type is a union.
pub open spec fn literal_accessor_base(
    operation: Seq<char>,
    literal_name: Seq<char>,
    value_name: Seq<char>,
    value_is_union: bool,
) -> Seq<char> {
    if value_is_union {
        operation + "_"@ + value_name + "_with_"@ + literal_name
    } else {
        operation + "_"@ + literal_name
    }
}

/// The accessors of the property `literal` for one value signature.
pub open spec fn literal_step(
    type_generics: Seq<char>,
    generics: Seq<char>,
    this_ty: Seq<char>,
    st: AccessorState,
    literal: Seq<char>,
    value: TypeRef,
    value_is_union: bool,
) -> AccessorState {
    property_step(
        type_generics,
        generics,
        this_ty,
        st,
        literal_method_name_spec(literal),
        string_literal_repr(literal),
        value,
        value_is_union,
    )
}

/// The accessors of one value signature of the property whose method-name
/// fragment is `literal_name` and whose name is written as the string literal
/// token `literal_text`.
pub open spec fn property_step(
    type_generics: Seq<char>,
    generics: Seq<char>,
    this_ty: Seq<char>,
    st: AccessorState,
    literal_name: Seq<char>,
    literal_text: Seq<char>,
    value: TypeRef,
    value_is_union: bool,
) -> AccessorState {
    let value_name = type_name_spec(value);
    let g = fresh_name(literal_accessor_base("get"@, literal_name, value_name, value_is_union), st.0);
    let used1 = st.0.push(g);
    let t = fresh_name("try_"@ + g, used1);
    let used2 = used1.push(t);
    let s = fresh_name(literal_accessor_base("set"@, literal_name, value_name, value_is_union), used2);
    (
        used2.push(s),
        st.1.push(literal_getter_text(type_generics, this_ty, g, t, literal_text, value)),
        st.2.push(literal_setter_text(generics, this_ty, s, literal_text, value)),
    )
}

pub open spec fn literal_fold_values(
    type_generics: Seq<char>,
    generics: Seq<char>,
    this_ty: Seq<char>,
    st: AccessorState,
    literal: Seq<char>,
    vs: Seq<TypeRef>,
    value_is_union: bool,
) -> AccessorState
    decreases vs.len(),
{
    if vs.len() == 0 {
        st
    } else {
        literal_step(
            type_generics,
            generics,
            this_ty,
            literal_fold_values(type_generics, generics, this_ty, st, literal, vs.subrange(0, vs.len() - 1), value_is_union),
            literal,
            vs[vs.len() - 1],
            value_is_union,
        )
    }
}

/// The accessors for every literal key in `literals` (outer) and value
/// alternative in `vs` (inner).
pub open spec fn literal_fold(
    type_generics: Seq<char>,
    generics: Seq<char>,
    this_ty: Seq<char>,
    literals: Seq<Seq<char>>,
    vs: Seq<TypeRef>,
    value_is_union: bool,
) -> AccessorState
    decreases literals.len(),
{
    if literals.len() == 0 {
        (Seq::empty(), Seq::empty(), Seq::empty())
    } else {
        literal_fold_values(
            type_generics,
            generics,
            this_ty,
            literal_fold(type_generics, generics, this_ty, literals.subrange(0, literals.len() - 1), vs, value_is_union),
            literals[literals.len() - 1],
            vs,
            value_is_union,
        )
    }
}

/// The accessors of a record keyed by the string literals `literals`.
pub open spec fn literal_state(
    decl: RecordDecl,
    cgctx: Option<&CodegenContext>,
    literals: Seq<Seq<char>>,
) -> AccessorState {
    let scope = decl.body_scope;
    literal_fold(
        type_generics_spec(decl, cgctx),
        type_generics_spec(decl, cgctx),
        this_type(decl, cgctx),
        literals,
        type_alternatives_spec(decl.value_type, cgctx, scope, 0),
        is_union_spec(decl.value_type, cgctx, scope, 0),
    )
}

/// The accessors generated for a record: its taken method names, getter
/// declarations and setter declarations.
pub open spec fn record_accessors(decl: RecordDecl, cgctx: Option<&CodegenContext>) -> AccessorState {
    match literal_keys_spec(decl.key_type, cgctx, decl.body_scope, 0) {
        Some(literals) => literal_state(decl, cgctx, literals),
        None => indexed_state(decl, cgctx),
    }
}

/// The bindings of a record keyed by the string literals `literals`: a
/// property getter, its fallible twin and a property setter for each literal
/// and value signature, and no empty construction.
pub open spec fn literal_record_text(
    decl: RecordDecl,
    module_context: ModuleContext,
    cgctx: Option<&CodegenContext>,
    literals: Seq<Seq<char>>,
) -> Seq<char> {
    let st = literal_state(decl, cgctx, literals);
    render_text(
        extern_attr_spec(module_context),
        rust_name_spec(decl, cgctx),
        rust_name_spec(decl, cgctx),
        type_args_spec(decl),
        type_generics_spec(decl, cgctx),
        decl.name@,
        st.1,
        st.2,
        false,
    )
}

/// Renders the base name of a property accessor.
fn literal_base_string(
    operation: &str,
    literal_name: &String,
    value_name: &String,
    value_is_union: bool,
) -> (res: String)
    ensures
        res@ == literal_accessor_base(operation@, literal_name@, value_name@, value_is_union),
{
    let mut res = String::from_str(operation);
    res.append("_");
    if value_is_union {
        res.append(value_name.as_str());
        res.append("_with_");
    }
    res.append(literal_name.as_str());
    res
}

/// Adds the accessors of one value signature of a property: the property's
/// method-name fragment is `literal_name`, and `literal_text` is the string
/// literal token that names it in JavaScript.
#[verifier::spinoff_prover]
#[verifier::rlimit(40)]
pub fn push_literal_accessors(
    type_generics: &String,
    generics: &String,
    this_ty: &String,
    literal_name: &String,
    literal_text: &String,
    value: &TypeRef,
    value_is_union: bool,
    used: &mut Vec<String>,
    getters: &mut Vec<String>,
    setters: &mut Vec<String>,
)
    ensures
        state_of(final(used)@, final(getters)@, final(setters)@) == property_step(
            type_generics@,
            generics@,
            this_ty@,
            state_of(old(used)@, old(getters)@, old(setters)@),
            literal_name@,
            literal_text@,
            *value,
            value_is_union,
        ),
{
    let value_name = record_type_name(value);
    let getter_base = literal_base_string("get", literal_name, &value_name, value_is_union);
    let ghost u0 = used@;
    let getter_name = dedupe_name(&getter_base, used);
    assert(names_view(used@) =~= names_view(u0).push(getter_name@));
    let ghost u1 = used@;
    let mut try_base = String::from_str("try_");
    try_base.append(getter_name.as_str());
    let try_getter_name = dedupe_name(&try_base, used);
    assert(names_view(used@) =~= names_view(u1).push(try_getter_name@));
    let ghost u2 = used@;
    let return_type = rust_type(value, TypePosition::Return);
    let mut ret = String::from_str(" -> ");
    ret.append(return_type.as_str());
    let mut try_ret = String::from_str(" -> Result<");
    try_ret.append(return_type.as_str());
    try_ret.append(", JsValue>");
    let mut js_name = String::from_str("js_name = ");
    js_name.append(literal_text.as_str());
    let mut getter_attr = String::from_str("method, getter, ");
    getter_attr.append(js_name.as_str());
    let mut try_attr = String::from_str("catch, method, getter, ");
    try_attr.append(js_name.as_str());
    let no_params = String::new();
    let mut getter = method_decl_text(
        getter_attr.as_str(),
        getter_name.as_str(),
        type_generics.as_str(),
        this_ty.as_str(),
        no_params.as_str(),
        ret.as_str(),
    );
    let try_getter = method_decl_text(
        try_attr.as_str(),
        try_getter_name.as_str(),
        type_generics.as_str(),
        this_ty.as_str(),
        no_params.as_str(),
        try_ret.as_str(),
    );
    getter.append(try_getter.as_str());

    let setter_base = literal_base_string("set", literal_name, &value_name, value_is_union);
    let setter_name = dedupe_name(&setter_base, used);
    assert(names_view(used@) =~= names_view(u2).push(setter_name@));
    let mut params_tys: Vec<&TypeRef> = Vec::new();
    params_tys.push(value);
    assert(deref_all(params_tys@) =~= seq![*value]);
    let mut attr = String::from_str("method, setter, js_name = ");
    attr.append(literal_text.as_str());
    if needs_slice_to_array(&params_tys) {
        attr.append(", slice_to_array");
    }
    assert(attr@ =~= "method, setter, js_name = "@ + literal_text@ + slice_attr(
        needs_slice_to_array_spec(seq![*value]),
    ));
    let mut params = param_string("value", value);
    params.append(",");
    let setter = method_decl_text(
        attr.as_str(),
        setter_name.as_str(),
        generics.as_str(),
        this_ty.as_str(),
        params.as_str(),
        String::new().as_str(),
    );
    let ghost g0 = getters@;
    let ghost s0 = setters@;
    getters.push(getter);
    setters.push(setter);
    assert(names_view(getters@) =~= names_view(g0).push(getters@.last()@));
    assert(names_view(setters@) =~= names_view(s0).push(setters@.last()@));
}

/// Renders a record keyed by the string literals `literal_keys`.
#[verifier::spinoff_prover]
#[verifier::rlimit(40)]
pub fn generate_string_literal_record(
    decl: &RecordDecl,
    module_context: &ModuleContext,
    cgctx: Option<&CodegenContext>,
    wrapper: &RecordWrapper,
    literal_keys: Vec<String>,
) -> (res: String)
    requires
        wrapper.describes(*decl, *module_context, cgctx),
    ensures
        res@ == literal_record_text(*decl, *module_context, cgctx, names_view(literal_keys@)),
{
    let scope = decl.body_scope;
    let value_alts = type_alternatives(&decl.value_type, cgctx, scope, 0);
    let value_is_union = is_union_type(&decl.value_type, cgctx, scope, 0);
    let generics = render_generic_bounds(&wrapper.type_bounds);
    let mut this_ty = wrapper.rust_ident.clone();
    this_ty.append(wrapper.type_args.as_str());
    let ghost lits = names_view(literal_keys@);
    let ghost vs = deref_all(value_alts@);
    let ghost tg = wrapper.type_generics@;
    let mut used: Vec<String> = Vec::new();
    let mut getters: Vec<String> = Vec::new();
    let mut setters: Vec<String> = Vec::new();
    assert(state_of(used@, getters@, setters@) =~= literal_fold(tg, generics@, this_ty@, lits.subrange(0, 0), vs, value_is_union));
    let mut i: usize = 0;
    while i < literal_keys.len()
        invariant
            i <= literal_keys@.len(),
            lits == names_view(literal_keys@),
            vs == deref_all(value_alts@),
            tg == wrapper.type_generics@,
            state_of(used@, getters@, setters@) == literal_fold(
                tg,
                generics@,
                this_ty@,
                lits.subrange(0, i as int),
                vs,
                value_is_union,
            ),
        decreases literal_keys@.len() - i,
    {
        let ghost before = literal_fold(tg, generics@, this_ty@, lits.subrange(0, i as int), vs, value_is_union);
        let literal = &literal_keys[i];
        let literal_name = string_literal_method_name(literal.as_str());
        let literal_text = string_literal_token(literal.as_str());
        assert(vs.subrange(0, 0) =~= Seq::<TypeRef>::empty());
        let mut j: usize = 0;
        while j < value_alts.len()
            invariant
                i < literal_keys@.len(),
                j <= value_alts@.len(),
                lits == names_view(literal_keys@),
                vs == deref_all(value_alts@),
                tg == wrapper.type_generics@,
                *literal == literal_keys@[i as int],
                literal_name@ == literal_method_name_spec(literal@),
                literal_text@ == string_literal_repr(literal@),
                state_of(used@, getters@, setters@) == literal_fold_values(
                    tg,
                    generics@,
                    this_ty@,
                    before,
                    lits[i as int],
                    vs.subrange(0, j as int),
                    value_is_union,
                ),
            decreases value_alts@.len() - j,
        {
            assert(vs.subrange(0, j + 1).subrange(0, j as int) =~= vs.subrange(0, j as int));
            push_literal_accessors(
                &wrapper.type_generics,
                &generics,
                &this_ty,
                &literal_name,
                &literal_text,
                value_alts[j],
                value_is_union,
                &mut used,
                &mut getters,
                &mut setters,
            );
            j = j + 1;
        }
        assert(vs.subrange(0, value_alts@.len() as int) =~= vs);
        assert(lits.subrange(0, i + 1).subrange(0, i as int) =~= lits.subrange(0, i as int));
        i = i + 1;
    }
    assert(lits.subrange(0, literal_keys@.len() as int) =~= lits);
    // A record with finitely many keys requires every key to be present, so
    // an empty object would not be a valid value of it.
    wrapper.render(decl.name.as_str(), &getters, &setters, false)
}

/// The bindings generated for a named `Record<K, V>` alias: property
/// accessors when the key type is a set of string literals, indexing
/// accessors otherwise.
pub open spec fn record_source_spec(
    decl: RecordDecl,
    module_context: ModuleContext,
    cgctx: Option<&CodegenContext>,
) -> Seq<char> {
    match literal_keys_spec(decl.key_type, cgctx, decl.body_scope, 0) {
        Some(literals) => literal_record_text(decl, module_context, cgctx, literals),
        None => indexed_record_text(decl, module_context, cgctx),
    }
}

/// Renders the bindings of a named `Record<K, V>` alias as Rust source.
pub fn generate_record_source(
    decl: &RecordDecl,
    module_context: &ModuleContext,
    cgctx: Option<&CodegenContext>,
) -> (res: String)
    ensures
        res@ == record_source_spec(*decl, *module_context, cgctx),
{
    let wrapper = RecordWrapper::new(decl, module_context, cgctx);
    if let Some(literal_keys) = string_literal_keys(&decl.key_type, cgctx, decl.body_scope, 0) {
        return generate_string_literal_record(decl, module_context, cgctx, &wrapper, literal_keys);
    }
    generate_indexed_record(decl, module_context, cgctx, &wrapper)
}


/// Emits the wasm-bindgen bindings of a named `Record<K, V>` alias as a token
/// stream: the source that `record_source_spec` describes, lexed. It fails only
/// if the lexer rejects that source.
pub fn generate_record(
    decl: &RecordDecl,
    module_context: &ModuleContext,
    cgctx: Option<&CodegenContext>,
) -> (res: Result<proc_macro2::TokenStream, proc_macro2::LexError>)
    ensures
        res is Ok <==> lexes_as_tokens(record_source_spec(*decl, *module_context, cgctx)),
        res matches Ok(ts) ==> ts == lexed_tokens(record_source_spec(*decl, *module_context, cgctx)),
{
    let source = generate_record_source(decl, module_context, cgctx);
    lex_tokens(source.as_str())
}

} // verus!
