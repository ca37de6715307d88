//! Rendering of the Rust source text that the generated bindings consist of.
use vstd::prelude::*;
use vstd::string::*;
use crate::naming::names_view;

verus! {

/// `parts` written one after another.
pub open spec fn concat_all(parts: Seq<Seq<char>>) -> Seq<char>
    decreases parts.len(),
{
    if parts.len() == 0 {
        Seq::empty()
    } else {
        concat_all(parts.subrange(0, parts.len() - 1)) + parts[parts.len() - 1]
    }
}

/// Writes `parts` one after another.
pub fn concat_strings(parts: &Vec<String>) -> (res: String)
    ensures
        res@ == concat_all(names_view(parts@)),
{
    let ghost view = names_view(parts@);
    let mut res = String::new();
    let mut i: usize = 0;
    while i < parts.len()
        invariant
            i <= parts@.len(),
            view == names_view(parts@),
            res@ == concat_all(view.subrange(0, i as int)),
        decreases parts@.len() - i,
    {
        assert(view.subrange(0, i + 1).subrange(0, i as int) =~= view.subrange(0, i as int));
        res.append(parts[i].as_str());
        i = i + 1;
    }
    assert(view.subrange(0, parts@.len() as int) =~= view);
    res
}

/// A method of an `extern "C"` block: its `wasm_bindgen` attribute with the
/// arguments `attr_args`, its generics, a `this` receiver of type `this_ty`,
/// the further parameters `params`, and the return clause `ret`.
pub open spec fn method_decl(
    attr_args: Seq<char>,
    name: Seq<char>,
    generics: Seq<char>,
    this_ty: Seq<char>,
    params: Seq<char>,
    ret: Seq<char>,
) -> Seq<char> {
    "#[wasm_bindgen("@ + attr_args + ")] pub fn "@ + name + generics + "(this: &"@ + this_ty + ", "@
        + params + ")"@ + ret + "; "@
}

/// Renders a method of an `extern "C"` block.
pub fn method_decl_text(
    attr_args: &str,
    name: &str,
    generics: &str,
    this_ty: &str,
    params: &str,
    ret: &str,
) -> (res: String)
    ensures
        res@ == method_decl(attr_args@, name@, generics@, this_ty@, params@, ret@),
{
    let mut res = String::from_str("#[wasm_bindgen(");
    res.append(attr_args);
    res.append(")] pub fn ");
    res.append(name);
    res.append(generics);
    res.append("(this: &");
    res.append(this_ty);
    res.append(", ");
    res.append(params);
    res.append(")");
    res.append(ret);
    res.append("; ");
    res
}

} // verus!
