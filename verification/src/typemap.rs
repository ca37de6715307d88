//! How TypeScript types map to Rust: the short flavor name of a type, and the
//! Rust type text that a generated signature uses for it.
use vstd::prelude::*;
use vstd::string::*;
use crate::ir::TypeRef;

verus! {

/// The snake-case name of the Rust type that a primitive TypeScript type maps
/// to (`str`, `f64`, `bool`, ...); `js_value` for anything without one.
pub open spec fn type_snake_name_spec(ty: TypeRef) -> Seq<char> {
    match ty {
        TypeRef::String => "str"@,
        TypeRef::Number => "f64"@,
        TypeRef::Boolean => "bool"@,
        TypeRef::BigInt => "big_int"@,
        TypeRef::Undefined => "undefined"@,
        TypeRef::Void => "undefined"@,
        TypeRef::Null => "null"@,
        TypeRef::Object => "object"@,
        TypeRef::Function => "function"@,
        TypeRef::Array(_) => "slice"@,
        _ => "js_value"@,
    }
}

/// The snake-case name of the Rust type that `ty` maps to.
pub fn type_snake_name(ty: &TypeRef) -> (res: String)
    ensures
        res@ == type_snake_name_spec(*ty),
{
    match ty {
        TypeRef::String => String::from_str("str"),
        TypeRef::Number => String::from_str("f64"),
        TypeRef::Boolean => String::from_str("bool"),
        TypeRef::BigInt => String::from_str("big_int"),
        TypeRef::Undefined => String::from_str("undefined"),
        TypeRef::Void => String::from_str("undefined"),
        TypeRef::Null => String::from_str("null"),
        TypeRef::Object => String::from_str("object"),
        TypeRef::Function => String::from_str("function"),
        TypeRef::Array(_) => String::from_str("slice"),
        _ => String::from_str("js_value"),
    }
}


/// Where a type appears in a generated signature.
#[derive(Clone, Copy, PartialEq, Eq, Structural, Debug)]
pub enum TypePosition {
    Argument,
    Return,
}

/// `t` as an argument type borrows; as a return type it is owned.
pub open spec fn by_position(pos: TypePosition, t: Seq<char>) -> Seq<char> {
    if pos == TypePosition::Argument {
        "&"@ + t
    } else {
        t
    }
}

/// `borrowed` as an argument type, `owned` as a return type.
pub open spec fn owned_or_borrowed(pos: TypePosition, owned: Seq<char>, borrowed: Seq<char>) -> Seq<char> {
    if pos == TypePosition::Argument {
        borrowed
    } else {
        owned
    }
}

/// `items` joined by `sep`.
pub open spec fn join_with(items: Seq<Seq<char>>, sep: Seq<char>) -> Seq<char>
    decreases items.len(),
{
    if items.len() == 0 {
        Seq::empty()
    } else if items.len() == 1 {
        items[0]
    } else {
        join_with(items.subrange(0, items.len() - 1), sep) + sep + items[items.len() - 1]
    }
}

/// The Rust path that names a referenced type.
pub open spec fn path_text(segments: Seq<String>) -> Seq<char> {
    if segments.len() == 0 {
        "JsValue"@
    } else {
        join_with(segments.map_values(|s: String| s@), "::"@)
    }
}

/// The Rust type that a generated signature uses for `ty` at `pos`.
pub open spec fn rust_type_spec(ty: TypeRef, pos: TypePosition) -> Seq<char>
    decreases ty,
{
    match ty {
        TypeRef::String => owned_or_borrowed(pos, "String"@, "&str"@),
        TypeRef::StringLiteral(_) => owned_or_borrowed(pos, "String"@, "&str"@),
        TypeRef::Number => "f64"@,
        TypeRef::NumberLiteral(_) => "f64"@,
        TypeRef::Boolean => "bool"@,
        TypeRef::BooleanLiteral(_) => "bool"@,
        TypeRef::BigInt => by_position(pos, "js_sys::BigInt"@),
        TypeRef::Object => by_position(pos, "js_sys::Object"@),
        TypeRef::Function => by_position(pos, "js_sys::Function"@),
        TypeRef::Tuple(_) => by_position(pos, "js_sys::Array"@),
        TypeRef::Array(inner) => if pos == TypePosition::Argument {
            "&["@ + rust_type_spec(*inner, TypePosition::Return) + "]"@
        } else {
            "Vec<"@ + rust_type_spec(*inner, TypePosition::Return) + ">"@
        },
        TypeRef::Nullable(inner) => "Option<"@ + rust_type_spec(*inner, pos) + ">"@,
        TypeRef::Reference { segments, generic_args } => by_position(
            pos,
            if generic_args@.len() == 0 {
                path_text(segments@)
            } else {
                path_text(segments@) + "<"@ + rust_types_joined(generic_args@) + ">"@
            },
        ),
        _ => by_position(pos, "JsValue"@),
    }
}

/// The owned Rust types of `tys`, joined by `, `.
pub open spec fn rust_types_joined(tys: Seq<TypeRef>) -> Seq<char>
    decreases tys,
{
    if tys.len() == 0 {
        Seq::empty()
    } else if tys.len() == 1 {
        rust_type_spec(tys[0], TypePosition::Return)
    } else {
        rust_types_joined(tys.subrange(0, tys.len() - 1)) + ", "@ + rust_type_spec(
            tys[tys.len() - 1],
            TypePosition::Return,
        )
    }
}

/// Renders `t` as borrowed in argument position.
fn by_position_text(pos: TypePosition, t: &str) -> (res: String)
    ensures
        res@ == by_position(pos, t@),
{
    if pos == TypePosition::Argument {
        let mut res = String::from_str("&");
        res.append(t);
        res
    } else {
        String::from_str(t)
    }
}

/// Joins `items` with `sep`.
pub fn join_strings(items: &Vec<String>, sep: &str) -> (res: String)
    ensures
        res@ == join_with(items@.map_values(|s: String| s@), sep@),
{
    let ghost view = items@.map_values(|s: String| s@);
    let mut res = String::new();
    let mut i: usize = 0;
    while i < items.len()
        invariant
            i <= items@.len(),
            view == items@.map_values(|s: String| s@),
            res@ == join_with(view.subrange(0, i as int), sep@),
        decreases items@.len() - i,
    {
        assert(view.subrange(0, i + 1).subrange(0, i as int) =~= view.subrange(0, i as int));
        if i > 0 {
            res.append(sep);
        }
        res.append(items[i].as_str());
        i = i + 1;
    }
    assert(view.subrange(0, items@.len() as int) =~= view);
    res
}

/// Renders the path of a referenced type.
fn path_string(segments: &Vec<String>) -> (res: String)
    ensures
        res@ == path_text(segments@),
{
    if segments.len() == 0 {
        String::from_str("JsValue")
    } else {
        join_strings(segments, "::")
    }
}

/// Renders the owned types of `tys`, joined by `, `.
fn joined_rust_types(tys: &Vec<TypeRef>) -> (res: String)
    ensures
        res@ == rust_types_joined(tys@),
    decreases tys@,
{
    let mut res = String::new();
    let mut i: usize = 0;
    while i < tys.len()
        invariant
            i <= tys@.len(),
            res@ == rust_types_joined(tys@.subrange(0, i as int)),
        decreases tys@.len() - i,
    {
        assert(tys@.subrange(0, i + 1).subrange(0, i as int) =~= tys@.subrange(0, i as int));
        let t = rust_type(&tys[i], TypePosition::Return);
        if i > 0 {
            res.append(", ");
        }
        res.append(t.as_str());
        i = i + 1;
    }
    assert(tys@.subrange(0, tys@.len() as int) =~= tys@);
    res
}

/// Renders the Rust type of `ty` at `pos`.
pub fn rust_type(ty: &TypeRef, pos: TypePosition) -> (res: String)
    ensures
        res@ == rust_type_spec(*ty, pos),
    decreases ty,
{
    match ty {
        TypeRef::String | TypeRef::StringLiteral(_) => if pos == TypePosition::Argument {
            String::from_str("&str")
        } else {
            String::from_str("String")
        },
        TypeRef::Number | TypeRef::NumberLiteral(_) => String::from_str("f64"),
        TypeRef::Boolean | TypeRef::BooleanLiteral(_) => String::from_str("bool"),
        TypeRef::BigInt => by_position_text(pos, "js_sys::BigInt"),
        TypeRef::Object => by_position_text(pos, "js_sys::Object"),
        TypeRef::Function => by_position_text(pos, "js_sys::Function"),
        TypeRef::Tuple(_) => by_position_text(pos, "js_sys::Array"),
        TypeRef::Array(inner) => {
            let t = rust_type(inner, TypePosition::Return);
            if pos == TypePosition::Argument {
                let mut res = String::from_str("&[");
                res.append(t.as_str());
                res.append("]");
                res
            } else {
                let mut res = String::from_str("Vec<");
                res.append(t.as_str());
                res.append(">");
                res
            }
        },
        TypeRef::Nullable(inner) => {
            let t = rust_type(inner, pos);
            let mut res = String::from_str("Option<");
            res.append(t.as_str());
            res.append(">");
            res
        },
        TypeRef::Reference { segments, generic_args } => {
            let mut named = path_string(segments);
            if generic_args.len() > 0 {
                named.append("<");
                let args = joined_rust_types(generic_args);
                named.append(args.as_str());
                named.append(">");
            }
            by_position_text(pos, named.as_str())
        },
        _ => by_position_text(pos, "JsValue"),
    }
}

/// Whether a setter over these parameter types passes a slice that has to be
/// copied into a JavaScript array.
pub open spec fn needs_slice_to_array_spec(tys: Seq<TypeRef>) -> bool {
    exists|i: int| 0 <= i < tys.len() && (#[trigger] tys[i] is Array)
}

/// Whether any of the parameter types is an array.
pub fn needs_slice_to_array(tys: &Vec<&TypeRef>) -> (res: bool)
    ensures
        res == needs_slice_to_array_spec(tys@.map_values(|t: &TypeRef| *t)),
{
    let ghost view = tys@.map_values(|t: &TypeRef| *t);
    let mut i: usize = 0;
    while i < tys.len()
        invariant
            i <= tys@.len(),
            view == tys@.map_values(|t: &TypeRef| *t),
            forall|j: int| 0 <= j < i ==> !(#[trigger] view[j] is Array),
        decreases tys@.len() - i,
    {
        if let TypeRef::Array(_) = tys[i] {
            assert(view[i as int] is Array);
            return true;
        }
        i = i + 1;
    }
    false
}

/// `<b1, b2, ...>` for a non-empty list of generic bounds, and nothing otherwise.
pub open spec fn generic_bounds_text(bounds: Seq<Seq<char>>) -> Seq<char> {
    if bounds.len() == 0 {
        Seq::empty()
    } else {
        "<"@ + join_with(bounds, ", "@) + ">"@
    }
}

/// Renders a list of generic bounds.
pub fn render_generic_bounds(bounds: &Vec<String>) -> (res: String)
    ensures
        res@ == generic_bounds_text(bounds@.map_values(|s: String| s@)),
{
    if bounds.len() == 0 {
        String::new()
    } else {
        let mut res = String::from_str("<");
        let joined = join_strings(bounds, ", ");
        res.append(joined.as_str());
        res.append(">");
        res
    }
}

} // verus!
