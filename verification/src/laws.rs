//! Properties that hold of every record the generator handles.
use vstd::prelude::*;
use crate::ir::{ident_name, RecordDecl, ScopeId, TypeRef};
use crate::context::CodegenContext;
use crate::naming::{fresh_name, lemma_fresh_name_is_fresh, candidate, first_free};
use crate::records::{
    property_step, slice_attr,
    AccessorState, indexed_step, indexed_fold_values, indexed_fold, literal_step,
    literal_fold_values, literal_fold, literal_keys_spec, type_generics_spec, this_type,
    is_union_spec, record_accessors, method_name_spec, type_name_spec, literal_accessor_base,
    literal_method_name_spec, normalized_name_spec, is_reserved_flavor, record_source_spec,
    render_text, extern_attr_spec, rust_name_spec, type_args_spec, is_finite_spec,
    alias_text, literal_getter_text, literal_setter_text, indexed_getter_text, indexed_setter_text,
    construction_text, literal_state, indexed_state,
};
use crate::ir::ModuleContext;
use crate::signatures::type_alternatives_spec;
use crate::naming::{snake_case, snake_scan, snake_step, emit_char, starts_word};
use crate::text::{is_upper, is_lower, is_digit, lower};
use crate::tokens::string_literal_repr;
use crate::render::{concat_all, method_decl};
use crate::typemap::{rust_type_spec, TypePosition, needs_slice_to_array_spec};

verus! {

/// Adding a name that is not yet taken keeps the taken names distinct.
proof fn lemma_push_fresh(used: Seq<Seq<char>>, x: Seq<char>)
    requires
        used.no_duplicates(),
        !used.contains(x),
    ensures
        used.push(x).no_duplicates(),
{
    assert forall|i: int, j: int| 0 <= i < used.push(x).len() && 0 <= j < used.push(x).len() && i != j
        implies used.push(x)[i] != used.push(x)[j] by {
        if i == used.len() {
            assert(used[j] == used.push(x)[j]);
        } else if j == used.len() {
            assert(used[i] == used.push(x)[i]);
        }
    }
}

/// Taking a fresh name for `base` keeps the taken names distinct.
proof fn lemma_take_fresh(base: Seq<char>, used: Seq<Seq<char>>)
    requires
        used.no_duplicates(),
    ensures
        used.push(fresh_name(base, used)).no_duplicates(),
{
    lemma_fresh_name_is_fresh(base, used);
    lemma_push_fresh(used, fresh_name(base, used));
}

proof fn lemma_indexed_step_distinct(
    generics: Seq<char>,
    this_ty: Seq<char>,
    st: AccessorState,
    key: TypeRef,
    value: TypeRef,
    ku: bool,
    vu: bool,
)
    requires
        st.0.no_duplicates(),
        st.0.len() == 3 * st.1.len(),
        st.1.len() == st.2.len(),
    ensures
        indexed_step(generics, this_ty, st, key, value, ku, vu).0.no_duplicates(),
        indexed_step(generics, this_ty, st, key, value, ku, vu).0.len() == st.0.len() + 3,
        indexed_step(generics, this_ty, st, key, value, ku, vu).1.len() == st.1.len() + 1,
        indexed_step(generics, this_ty, st, key, value, ku, vu).2.len() == st.2.len() + 1,
{
    let key_name = type_name_spec(key);
    let value_name = type_name_spec(value);
    let get_base = method_name_spec("get"@, key_name, value_name, ku, vu);
    lemma_take_fresh(get_base, st.0);
    let used1 = st.0.push(fresh_name(get_base, st.0));
    let try_base = "try_"@ + fresh_name(get_base, st.0);
    lemma_take_fresh(try_base, used1);
    let used2 = used1.push(fresh_name(try_base, used1));
    lemma_take_fresh(method_name_spec("set"@, key_name, value_name, ku, vu), used2);
}


proof fn lemma_indexed_fold_values_distinct(
    generics: Seq<char>,
    this_ty: Seq<char>,
    st: AccessorState,
    key: TypeRef,
    vs: Seq<TypeRef>,
    ku: bool,
    vu: bool,
)
    requires
        st.0.no_duplicates(),
        st.0.len() == 3 * st.1.len(),
        st.1.len() == st.2.len(),
    ensures
        indexed_fold_values(generics, this_ty, st, key, vs, ku, vu).0.no_duplicates(),
        indexed_fold_values(generics, this_ty, st, key, vs, ku, vu).1.len() == st.1.len() + vs.len(),
        indexed_fold_values(generics, this_ty, st, key, vs, ku, vu).2.len() == st.2.len() + vs.len(),
        indexed_fold_values(generics, this_ty, st, key, vs, ku, vu).0.len() == st.0.len() + 3 * vs.len(),
    decreases vs.len(),
{
    if vs.len() > 0 {
        let rest = vs.subrange(0, vs.len() - 1);
        lemma_indexed_fold_values_distinct(generics, this_ty, st, key, rest, ku, vu);
        lemma_indexed_step_distinct(
            generics,
            this_ty,
            indexed_fold_values(generics, this_ty, st, key, rest, ku, vu),
            key,
            vs[vs.len() - 1],
            ku,
            vu,
        );
    }
}

proof fn lemma_indexed_fold_distinct(
    generics: Seq<char>,
    this_ty: Seq<char>,
    ks: Seq<TypeRef>,
    vs: Seq<TypeRef>,
    ku: bool,
    vu: bool,
)
    ensures
        indexed_fold(generics, this_ty, ks, vs, ku, vu).0.no_duplicates(),
        indexed_fold(generics, this_ty, ks, vs, ku, vu).1.len() == ks.len() * vs.len(),
        indexed_fold(generics, this_ty, ks, vs, ku, vu).2.len() == ks.len() * vs.len(),
        indexed_fold(generics, this_ty, ks, vs, ku, vu).0.len() == 3 * (ks.len() * vs.len()),
    decreases ks.len(),
{
    if ks.len() > 0 {
        let rest = ks.subrange(0, ks.len() - 1);
        lemma_indexed_fold_distinct(generics, this_ty, rest, vs, ku, vu);
        lemma_indexed_fold_values_distinct(
            generics,
            this_ty,
            indexed_fold(generics, this_ty, rest, vs, ku, vu),
            ks[ks.len() - 1],
            vs,
            ku,
            vu,
        );
        assert(rest.len() * vs.len() + vs.len() == ks.len() * vs.len()) by (nonlinear_arith)
            requires
                rest.len() + 1 == ks.len(),
        ;
    }
}

proof fn lemma_literal_step_distinct(
    type_generics: Seq<char>,
    generics: Seq<char>,
    this_ty: Seq<char>,
    st: AccessorState,
    literal: Seq<char>,
    value: TypeRef,
    vu: bool,
)
    requires
        st.0.no_duplicates(),
        st.0.len() == 3 * st.1.len(),
        st.1.len() == st.2.len(),
    ensures
        literal_step(type_generics, generics, this_ty, st, literal, value, vu).0.no_duplicates(),
        literal_step(type_generics, generics, this_ty, st, literal, value, vu).0.len() == st.0.len() + 3,
        literal_step(type_generics, generics, this_ty, st, literal, value, vu).1.len() == st.1.len() + 1,
        literal_step(type_generics, generics, this_ty, st, literal, value, vu).2.len() == st.2.len() + 1,
{
    let literal_name = literal_method_name_spec(literal);
    let value_name = type_name_spec(value);
    let get_base = literal_accessor_base("get"@, literal_name, value_name, vu);
    lemma_take_fresh(get_base, st.0);
    let used1 = st.0.push(fresh_name(get_base, st.0));
    let try_base = "try_"@ + fresh_name(get_base, st.0);
    lemma_take_fresh(try_base, used1);
    let used2 = used1.push(fresh_name(try_base, used1));
    lemma_take_fresh(literal_accessor_base("set"@, literal_name, value_name, vu), used2);
}

proof fn lemma_literal_fold_values_distinct(
    type_generics: Seq<char>,
    generics: Seq<char>,
    this_ty: Seq<char>,
    st: AccessorState,
    literal: Seq<char>,
    vs: Seq<TypeRef>,
    vu: bool,
)
    requires
        st.0.no_duplicates(),
        st.0.len() == 3 * st.1.len(),
        st.1.len() == st.2.len(),
    ensures
        literal_fold_values(type_generics, generics, this_ty, st, literal, vs, vu).0.no_duplicates(),
        literal_fold_values(type_generics, generics, this_ty, st, literal, vs, vu).1.len() == st.1.len() + vs.len(),
        literal_fold_values(type_generics, generics, this_ty, st, literal, vs, vu).2.len() == st.2.len() + vs.len(),
        literal_fold_values(type_generics, generics, this_ty, st, literal, vs, vu).0.len() == st.0.len() + 3 * vs.len(),
    decreases vs.len(),
{
    if vs.len() > 0 {
        let rest = vs.subrange(0, vs.len() - 1);
        lemma_literal_fold_values_distinct(type_generics, generics, this_ty, st, literal, rest, vu);
        lemma_literal_step_distinct(
            type_generics,
            generics,
            this_ty,
            literal_fold_values(type_generics, generics, this_ty, st, literal, rest, vu),
            literal,
            vs[vs.len() - 1],
            vu,
        );
    }
}

proof fn lemma_literal_fold_distinct(
    type_generics: Seq<char>,
    generics: Seq<char>,
    this_ty: Seq<char>,
    literals: Seq<Seq<char>>,
    vs: Seq<TypeRef>,
    vu: bool,
)
    ensures
        literal_fold(type_generics, generics, this_ty, literals, vs, vu).0.no_duplicates(),
        literal_fold(type_generics, generics, this_ty, literals, vs, vu).1.len() == literals.len() * vs.len(),
        literal_fold(type_generics, generics, this_ty, literals, vs, vu).2.len() == literals.len() * vs.len(),
        literal_fold(type_generics, generics, this_ty, literals, vs, vu).0.len() == 3 * (literals.len() * vs.len()),
    decreases literals.len(),
{
    if literals.len() > 0 {
        let rest = literals.subrange(0, literals.len() - 1);
        lemma_literal_fold_distinct(type_generics, generics, this_ty, rest, vs, vu);
        lemma_literal_fold_values_distinct(
            type_generics,
            generics,
            this_ty,
            literal_fold(type_generics, generics, this_ty, rest, vs, vu),
            literals[literals.len() - 1],
            vs,
            vu,
        );
        assert(rest.len() * vs.len() + vs.len() == literals.len() * vs.len()) by (nonlinear_arith)
            requires
                rest.len() + 1 == literals.len(),
        ;
    }
}

/// No two methods generated for a record share a name, and each expanded
/// signature contributes exactly one getter pair and one setter: one per
/// (key alternative, value alternative) for an indexed record, one per
/// (literal key, value alternative) for a record keyed by string literals.
pub proof fn lemma_record_method_names_distinct(decl: RecordDecl, cgctx: Option<&CodegenContext>)
    ensures
        record_accessors(decl, cgctx).0.no_duplicates(),
        record_accessors(decl, cgctx).0.len() == 3 * record_accessors(decl, cgctx).1.len(),
        record_accessors(decl, cgctx).1.len() == record_accessors(decl, cgctx).2.len(),
        record_accessors(decl, cgctx).1.len() == (match literal_keys_spec(decl.key_type, cgctx, decl.body_scope, 0) {
            Some(literals) => literals.len(),
            None => type_alternatives_spec(decl.key_type, cgctx, decl.body_scope, 0).len(),
        }) * type_alternatives_spec(decl.value_type, cgctx, decl.body_scope, 0).len(),
{
    let scope = decl.body_scope;
    let tg = type_generics_spec(decl, cgctx);
    let tt = this_type(decl, cgctx);
    let vs = type_alternatives_spec(decl.value_type, cgctx, scope, 0);
    let vu = is_union_spec(decl.value_type, cgctx, scope, 0);
    match literal_keys_spec(decl.key_type, cgctx, scope, 0) {
        Some(literals) => {
            lemma_literal_fold_distinct(tg, tg, tt, literals, vs, vu);
        },
        None => {
            let ks = type_alternatives_spec(decl.key_type, cgctx, scope, 0);
            let ku = is_union_spec(decl.key_type, cgctx, scope, 0);
            lemma_indexed_fold_distinct(tg, tt, ks, vs, ku, vu);
        },
    }
}


/// A literal key never becomes an accessor fragment that reads as a type
/// flavor (`string`, `number`, `bool`, ...): such a name gets a `string_` prefix.
pub proof fn lemma_literal_method_name_not_flavor(literal: Seq<char>)
    ensures
        !is_reserved_flavor(literal_method_name_spec(literal)),
{
    reveal_strlit("string_");
    reveal_strlit("string");
    reveal_strlit("number");
    reveal_strlit("bool");
    reveal_strlit("big_int");
    reveal_strlit("undefined");
    reveal_strlit("null");
    reveal_strlit("js_value");
    reveal_strlit("object");
    reveal_strlit("typed_array");
    reveal_strlit("slice");
    reveal_strlit("function");
    let n = normalized_name_spec(literal);
    if is_reserved_flavor(n) {
        let r = "string_"@ + n;
        assert(n.len() >= 4);
        assert(r.len() >= 11);
        assert(r[0] == 's');
        assert("typed_array"@[0] == 't');
        assert(r != "typed_array"@);
    }
}

/// The method-name fragment of a literal is never empty.
pub proof fn lemma_normalized_name_nonempty(literal: Seq<char>)
    ensures
        normalized_name_spec(literal).len() > 0,
{
    reveal_strlit("empty");
}

/// A name that is not taken yet is kept as it is.
pub proof fn lemma_free_name_kept(base: Seq<char>, used: Seq<Seq<char>>)
    requires
        !used.contains(base),
    ensures
        fresh_name(base, used) == base,
{
    assert(candidate(base, 1) == base);
    assert(first_free(base, used, 1) == 1);
}


/// The bindings of every record are its wrapper type followed by all of its
/// getters, then all of its setters. `Default` and `new` are offered exactly
/// when the key type is neither a set of string literals nor otherwise finite:
/// a record with finitely many keys needs every key present, which an empty
/// object lacks.
pub proof fn lemma_record_source_shape(
    decl: RecordDecl,
    module_context: ModuleContext,
    cgctx: Option<&CodegenContext>,
)
    ensures
        record_source_spec(decl, module_context, cgctx) == render_text(
            extern_attr_spec(module_context),
            rust_name_spec(decl, cgctx),
            rust_name_spec(decl, cgctx),
            type_args_spec(decl),
            type_generics_spec(decl, cgctx),
            decl.name@,
            record_accessors(decl, cgctx).1,
            record_accessors(decl, cgctx).2,
            literal_keys_spec(decl.key_type, cgctx, decl.body_scope, 0) is None && !is_finite_spec(
                decl.key_type,
                cgctx,
                decl.body_scope,
                0,
            ),
        ),
{
}


/// Lower-case ASCII words joined by single underscores: only lower-case
/// letters, digits and `_`, and no `_` at either end or twice in a row.
pub open spec fn is_snake_fragment(s: Seq<char>) -> bool {
    &&& forall|i: int| 0 <= i < s.len() ==> is_lower(#[trigger] s[i]) || is_digit(s[i]) || s[i] == '_'
    &&& s.len() > 0 ==> s[0] != '_' && s[s.len() - 1] != '_'
    &&& forall|i: int| 0 <= i < s.len() - 1 ==> !(#[trigger] s[i] == '_' && s[i + 1] == '_')
}

proof fn lemma_emit_keeps_snake(out: Seq<char>, pending: bool, c: char)
    requires
        is_snake_fragment(out),
        pending ==> out.len() > 0,
        is_lower(c) || is_digit(c),
    ensures
        is_snake_fragment(emit_char(out, pending, c)),
{
    let r = emit_char(out, pending, c);
    if pending {
        assert(r =~= out.push('_').push(c));
        assert forall|i: int| 0 <= i < r.len() - 1 implies !(#[trigger] r[i] == '_' && r[i + 1] == '_') by {
            if i == out.len() - 1 {
                assert(r[i] == out[out.len() - 1]);
            } else if i < out.len() - 1 {
                assert(r[i] == out[i] && r[i + 1] == out[i + 1]);
            }
        }
        assert forall|i: int| 0 <= i < r.len() implies is_lower(#[trigger] r[i]) || is_digit(r[i]) || r[i] == '_' by {
            if i < out.len() {
                assert(r[i] == out[i]);
            }
        }
    } else {
        assert(r =~= out.push(c));
        assert forall|i: int| 0 <= i < r.len() - 1 implies !(#[trigger] r[i] == '_' && r[i + 1] == '_') by {
            if i < out.len() - 1 {
                assert(r[i] == out[i] && r[i + 1] == out[i + 1]);
            }
        }
        assert forall|i: int| 0 <= i < r.len() implies is_lower(#[trigger] r[i]) || is_digit(r[i]) || r[i] == '_' by {
            if i < out.len() {
                assert(r[i] == out[i]);
            }
        }
    }
}

proof fn lemma_snake_scan_fragment(s: Seq<char>, n: int)
    requires
        0 <= n <= s.len(),
    ensures
        is_snake_fragment(snake_scan(s, n).0),
        snake_scan(s, n).1 ==> snake_scan(s, n).0.len() > 0,
    decreases n,
{
    if n > 0 {
        lemma_snake_scan_fragment(s, n - 1);
        let st = snake_scan(s, n - 1);
        let c = s[n - 1];
        if is_upper(c) {
            assert((lower(c) as u32) == (c as u32) + 32);
            let pending = st.1 || (starts_word(s, n - 1) && st.0.len() > 0);
            lemma_emit_keeps_snake(st.0, pending, lower(c));
        } else if is_lower(c) || is_digit(c) {
            lemma_emit_keeps_snake(st.0, st.1, c);
        }
    }
}

/// Snake case yields a lower-case identifier fragment: ASCII lower-case words
/// and digits joined by single underscores, never starting or ending with one.
pub proof fn lemma_snake_case_is_fragment(s: Seq<char>)
    ensures
        is_snake_fragment(snake_case(s)),
{
    lemma_snake_scan_fragment(s, s.len() as int);
}


/// The ASCII letters and digits of `s`, in order, in lower case.
pub open spec fn lowered_word_chars(s: Seq<char>) -> Seq<char>
    decreases s.len(),
{
    if s.len() == 0 {
        Seq::empty()
    } else if is_upper(s.last()) || is_lower(s.last()) || is_digit(s.last()) {
        lowered_word_chars(s.drop_last()).push(lower(s.last()))
    } else {
        lowered_word_chars(s.drop_last())
    }
}

/// `s` without its `_` separators.
pub open spec fn without_underscores(s: Seq<char>) -> Seq<char>
    decreases s.len(),
{
    if s.len() == 0 {
        Seq::empty()
    } else if s.last() == '_' {
        without_underscores(s.drop_last())
    } else {
        without_underscores(s.drop_last()).push(s.last())
    }
}

proof fn lemma_emit_without_underscores(out: Seq<char>, pending: bool, c: char)
    requires
        c != '_',
    ensures
        without_underscores(emit_char(out, pending, c)) == without_underscores(out).push(c),
{
    if pending {
        let a = out.push('_');
        assert(a.drop_last() =~= out);
        assert(a.last() == '_');
        assert(without_underscores(a) == without_underscores(out));
        assert(a.push(c).drop_last() =~= a);
        assert(a.push(c).last() == c);
        assert(without_underscores(a.push(c)) == without_underscores(a).push(c));
    } else {
        assert(out.push(c).drop_last() =~= out);
        assert(out.push(c).last() == c);
    }
}

proof fn lemma_snake_scan_words(s: Seq<char>, n: int)
    requires
        0 <= n <= s.len(),
    ensures
        without_underscores(snake_scan(s, n).0) == lowered_word_chars(s.subrange(0, n)),
    decreases n,
{
    if n > 0 {
        lemma_snake_scan_words(s, n - 1);
        let st = snake_scan(s, n - 1);
        let c = s[n - 1];
        assert(s.subrange(0, n).drop_last() =~= s.subrange(0, n - 1));
        assert(s.subrange(0, n).last() == c);
        if is_upper(c) {
            assert((lower(c) as u32) == (c as u32) + 32);
            let pending = st.1 || (starts_word(s, n - 1) && st.0.len() > 0);
            lemma_emit_without_underscores(st.0, pending, lower(c));
        } else if is_lower(c) || is_digit(c) {
            lemma_emit_without_underscores(st.0, st.1, c);
        }
    }
}

/// Snake case keeps exactly the ASCII letters and digits of its input, in
/// order and in lower case; all it adds are the `_` separators between words
/// (which `lemma_snake_case_is_fragment` shows are single and inner).
pub proof fn lemma_snake_case_keeps_words(s: Seq<char>)
    ensures
        without_underscores(snake_case(s)) == lowered_word_chars(s),
{
    lemma_snake_scan_words(s, s.len() as int);
    assert(s.subrange(0, s.len() as int) =~= s);
}


// ---------------------------------------------------------------------------
// Where each signature's accessors stand, and how they are named
// ---------------------------------------------------------------------------

/// Taken names hold three per signature, and getters match setters one to one.
pub open spec fn state_wf(st: AccessorState) -> bool {
    st.0.len() == 3 * st.1.len() && st.1.len() == st.2.len()
}

/// `a` is `b` with more names and declarations added at the end.
pub open spec fn state_extends(a: AccessorState, b: AccessorState) -> bool {
    &&& b.0.len() <= a.0.len() && a.0.subrange(0, b.0.len() as int) == b.0
    &&& b.1.len() <= a.1.len() && a.1.subrange(0, b.1.len() as int) == b.1
    &&& b.2.len() <= a.2.len() && a.2.subrange(0, b.2.len() as int) == b.2
}

/// The base names of the getter and setter of a property accessor.
pub open spec fn literal_get_base(literal: Seq<char>, value: TypeRef, value_is_union: bool) -> Seq<char> {
    literal_accessor_base("get"@, literal_method_name_spec(literal), type_name_spec(value), value_is_union)
}

pub open spec fn literal_set_base(literal: Seq<char>, value: TypeRef, value_is_union: bool) -> Seq<char> {
    literal_accessor_base("set"@, literal_method_name_spec(literal), type_name_spec(value), value_is_union)
}

/// The names of the getter, fallible getter and setter of one property
/// signature, given the names `used` by earlier signatures.
pub open spec fn literal_names(used: Seq<Seq<char>>, literal: Seq<char>, value: TypeRef, value_is_union: bool) -> (Seq<char>, Seq<char>, Seq<char>) {
    let g = fresh_name(literal_get_base(literal, value, value_is_union), used);
    let t = fresh_name("try_"@ + g, used.push(g));
    let s = fresh_name(literal_set_base(literal, value, value_is_union), used.push(g).push(t));
    (g, t, s)
}

/// Signature `k` of `st` is the property `literal` with value type `value`:
/// its three names come after those of signatures `0..k` and are chosen
/// against them, and its getter and setter declarations carry those names and
/// `js_name = literal`.
#[verifier::opaque]
pub open spec fn literal_entry(
    type_generics: Seq<char>,
    generics: Seq<char>,
    this_ty: Seq<char>,
    st: AccessorState,
    k: int,
    literal: Seq<char>,
    value: TypeRef,
    value_is_union: bool,
) -> bool {
    let names = literal_names(st.0.subrange(0, 3 * k), literal, value, value_is_union);
    &&& 0 <= k < st.1.len()
    &&& st.0[3 * k] == names.0
    &&& st.0[3 * k + 1] == names.1
    &&& st.0[3 * k + 2] == names.2
    &&& st.1[k] == literal_getter_text(type_generics, this_ty, names.0, names.1, string_literal_repr(literal), value)
    &&& st.2[k] == literal_setter_text(generics, this_ty, names.2, string_literal_repr(literal), value)
}

proof fn lemma_extends_trans(a: AccessorState, b: AccessorState, c: AccessorState)
    requires
        state_extends(a, b),
        state_extends(b, c),
    ensures
        state_extends(a, c),
{
    assert(a.0.subrange(0, c.0.len() as int) =~= b.0.subrange(0, c.0.len() as int));
    assert(a.1.subrange(0, c.1.len() as int) =~= b.1.subrange(0, c.1.len() as int));
    assert(a.2.subrange(0, c.2.len() as int) =~= b.2.subrange(0, c.2.len() as int));
}

proof fn lemma_literal_entry_kept(
    tg: Seq<char>,
    gen: Seq<char>,
    tt: Seq<char>,
    a: AccessorState,
    b: AccessorState,
    k: int,
    literal: Seq<char>,
    value: TypeRef,
    vu: bool,
)
    requires
        state_extends(a, b),
        state_wf(b),
        literal_entry(tg, gen, tt, b, k, literal, value, vu),
    ensures
        literal_entry(tg, gen, tt, a, k, literal, value, vu),
{
    reveal(literal_entry);
    assert(a.0.subrange(0, 3 * k) =~= b.0.subrange(0, 3 * k));
    assert(a.0[3 * k] == a.0.subrange(0, b.0.len() as int)[3 * k]);
    assert(a.0[3 * k + 1] == a.0.subrange(0, b.0.len() as int)[3 * k + 1]);
    assert(a.0[3 * k + 2] == a.0.subrange(0, b.0.len() as int)[3 * k + 2]);
    assert(a.1[k] == a.1.subrange(0, b.1.len() as int)[k]);
    assert(a.2[k] == a.2.subrange(0, b.2.len() as int)[k]);
}

proof fn lemma_literal_step_entry(
    tg: Seq<char>,
    gen: Seq<char>,
    tt: Seq<char>,
    st: AccessorState,
    literal: Seq<char>,
    value: TypeRef,
    vu: bool,
)
    requires
        state_wf(st),
    ensures
        state_wf(literal_step(tg, gen, tt, st, literal, value, vu)),
        state_extends(literal_step(tg, gen, tt, st, literal, value, vu), st),
        literal_entry(tg, gen, tt, literal_step(tg, gen, tt, st, literal, value, vu), st.1.len() as int, literal, value, vu),
{
    reveal(literal_entry);
    let r = literal_step(tg, gen, tt, st, literal, value, vu);
    let k = st.1.len() as int;
    assert(r.0.subrange(0, st.0.len() as int) =~= st.0);
    assert(r.1.subrange(0, st.1.len() as int) =~= st.1);
    assert(r.2.subrange(0, st.2.len() as int) =~= st.2);
    assert(r.0.subrange(0, 3 * k) =~= st.0);
}

#[verifier::spinoff_prover]
#[verifier::rlimit(60)]
proof fn lemma_literal_values_entries(
    tg: Seq<char>,
    gen: Seq<char>,
    tt: Seq<char>,
    st: AccessorState,
    literal: Seq<char>,
    vs: Seq<TypeRef>,
    vu: bool,
)
    requires
        state_wf(st),
    ensures
        state_wf(literal_fold_values(tg, gen, tt, st, literal, vs, vu)),
        state_extends(literal_fold_values(tg, gen, tt, st, literal, vs, vu), st),
        literal_fold_values(tg, gen, tt, st, literal, vs, vu).1.len() == st.1.len() + vs.len(),
        forall|j: int|
            0 <= j < vs.len() ==> literal_entry(
                tg,
                gen,
                tt,
                literal_fold_values(tg, gen, tt, st, literal, vs, vu),
                st.1.len() + j,
                literal,
                #[trigger] vs[j],
                vu,
            ),
    decreases vs.len(),
{
    let r = literal_fold_values(tg, gen, tt, st, literal, vs, vu);
    if vs.len() == 0 {
        assert(st.0.subrange(0, st.0.len() as int) =~= st.0);
        assert(st.1.subrange(0, st.1.len() as int) =~= st.1);
        assert(st.2.subrange(0, st.2.len() as int) =~= st.2);
    } else {
        let rest = vs.subrange(0, vs.len() - 1);
        let prev = literal_fold_values(tg, gen, tt, st, literal, rest, vu);
        lemma_literal_values_entries(tg, gen, tt, st, literal, rest, vu);
        lemma_literal_step_entry(tg, gen, tt, prev, literal, vs[vs.len() - 1], vu);
        lemma_extends_trans(r, prev, st);
        assert forall|j: int| 0 <= j < vs.len() implies literal_entry(tg, gen, tt, r, st.1.len() + j, literal, #[trigger] vs[j], vu) by {
            if j < vs.len() - 1 {
                assert(rest[j] == vs[j]);
                lemma_literal_entry_kept(tg, gen, tt, r, prev, st.1.len() + j, literal, vs[j], vu);
            }
        }
    }
}

#[verifier::spinoff_prover]
#[verifier::rlimit(60)]
proof fn lemma_literal_fold_entries(
    tg: Seq<char>,
    gen: Seq<char>,
    tt: Seq<char>,
    literals: Seq<Seq<char>>,
    vs: Seq<TypeRef>,
    vu: bool,
)
    ensures
        state_wf(literal_fold(tg, gen, tt, literals, vs, vu)),
        literal_fold(tg, gen, tt, literals, vs, vu).1.len() == literals.len() * vs.len(),
        forall|i: int, j: int|
            #![trigger literals[i], vs[j]]
            0 <= i < literals.len() && 0 <= j < vs.len() ==> literal_entry(
                tg,
                gen,
                tt,
                literal_fold(tg, gen, tt, literals, vs, vu),
                i * vs.len() + j,
                literals[i],
                vs[j],
                vu,
            ),
    decreases literals.len(),
{
    if literals.len() > 0 {
        let n = literals.len();
        let m = vs.len();
        let rest = literals.subrange(0, n - 1);
        let prev = literal_fold(tg, gen, tt, rest, vs, vu);
        let r = literal_fold(tg, gen, tt, literals, vs, vu);
        lemma_literal_fold_entries(tg, gen, tt, rest, vs, vu);
        lemma_literal_values_entries(tg, gen, tt, prev, literals[n - 1], vs, vu);
        assert((n - 1) * m + m == n * m) by (nonlinear_arith);
        assert forall|i: int, j: int|
            #![trigger literals[i], vs[j]]
            0 <= i < n && 0 <= j < m implies literal_entry(tg, gen, tt, r, i * m + j, literals[i], vs[j], vu) by {
            if i < n - 1 {
                assert(rest[i] == literals[i]);
                assert(i * m + j < (n - 1) * m) by (nonlinear_arith)
                    requires
                        0 <= i < n - 1,
                        0 <= j < m,
                ;
                assert(literal_entry(tg, gen, tt, prev, i * m + j, rest[i], vs[j], vu));
                lemma_literal_entry_kept(tg, gen, tt, r, prev, i * m + j, literals[i], vs[j], vu);
            } else {
                assert(i * m + j == prev.1.len() + j);
            }
        }
    }
}

/// The accessors of a record keyed by string literals come literal by
/// literal, in the order of the keys (a repeated key gets its accessors
/// again), and for each literal one signature per value alternative, in order:
/// signature `i * m + j` is literal `i` with value alternative `j`, its
/// declarations carry `js_name` = literal `i`, and its names are chosen
/// against those of all earlier signatures.
pub proof fn lemma_literal_accessor_order(
    decl: RecordDecl,
    cgctx: Option<&CodegenContext>,
    literals: Seq<Seq<char>>,
    i: int,
    j: int,
)
    requires
        0 <= i < literals.len(),
        0 <= j < type_alternatives_spec(decl.value_type, cgctx, decl.body_scope, 0).len(),
    ensures
        literal_entry(
            type_generics_spec(decl, cgctx),
            type_generics_spec(decl, cgctx),
            this_type(decl, cgctx),
            literal_state(decl, cgctx, literals),
            i * type_alternatives_spec(decl.value_type, cgctx, decl.body_scope, 0).len() + j,
            literals[i],
            type_alternatives_spec(decl.value_type, cgctx, decl.body_scope, 0)[j],
            is_union_spec(decl.value_type, cgctx, decl.body_scope, 0),
        ),
        literal_state(decl, cgctx, literals).1.len() == literals.len()
            * type_alternatives_spec(decl.value_type, cgctx, decl.body_scope, 0).len(),
{
    let vs = type_alternatives_spec(decl.value_type, cgctx, decl.body_scope, 0);
    lemma_literal_fold_entries(
        type_generics_spec(decl, cgctx),
        type_generics_spec(decl, cgctx),
        this_type(decl, cgctx),
        literals,
        vs,
        is_union_spec(decl.value_type, cgctx, decl.body_scope, 0),
    );
    assert(literals[i] == literals[i] && vs[j] == vs[j]);
}

/// A property accessor keeps its base name when no earlier accessor took it:
/// the getter is `get_<literal>` (`get_<value>_with_<literal>` for a union
/// value), the fallible getter `try_` and the getter's name, and the setter
/// `set_...` like the getter.
pub proof fn lemma_literal_free_names_kept(used: Seq<Seq<char>>, literal: Seq<char>, value: TypeRef, vu: bool)
    ensures
        !used.contains(literal_get_base(literal, value, vu)) ==> literal_names(used, literal, value, vu).0
            == literal_get_base(literal, value, vu),
        !used.push(literal_names(used, literal, value, vu).0).contains(
            "try_"@ + literal_names(used, literal, value, vu).0,
        ) ==> literal_names(used, literal, value, vu).1 == "try_"@ + literal_names(used, literal, value, vu).0,
        !used.push(literal_names(used, literal, value, vu).0).push(literal_names(used, literal, value, vu).1).contains(
            literal_set_base(literal, value, vu),
        ) ==> literal_names(used, literal, value, vu).2 == literal_set_base(literal, value, vu),
{
    let names = literal_names(used, literal, value, vu);
    if !used.contains(literal_get_base(literal, value, vu)) {
        lemma_free_name_kept(literal_get_base(literal, value, vu), used);
    }
    if !used.push(names.0).contains("try_"@ + names.0) {
        lemma_free_name_kept("try_"@ + names.0, used.push(names.0));
    }
    if !used.push(names.0).push(names.1).contains(literal_set_base(literal, value, vu)) {
        lemma_free_name_kept(literal_set_base(literal, value, vu), used.push(names.0).push(names.1));
    }
}


/// The base names of the getter and setter of an indexed accessor.
pub open spec fn indexed_get_base(key: TypeRef, value: TypeRef, ku: bool, vu: bool) -> Seq<char> {
    method_name_spec("get"@, type_name_spec(key), type_name_spec(value), ku, vu)
}

pub open spec fn indexed_set_base(key: TypeRef, value: TypeRef, ku: bool, vu: bool) -> Seq<char> {
    method_name_spec("set"@, type_name_spec(key), type_name_spec(value), ku, vu)
}

/// The names of the getter, fallible getter and setter of one indexed
/// signature, given the names `used` by earlier signatures.
pub open spec fn indexed_names(used: Seq<Seq<char>>, key: TypeRef, value: TypeRef, ku: bool, vu: bool) -> (Seq<char>, Seq<char>, Seq<char>) {
    let g = fresh_name(indexed_get_base(key, value, ku, vu), used);
    let t = fresh_name("try_"@ + g, used.push(g));
    let s = fresh_name(indexed_set_base(key, value, ku, vu), used.push(g).push(t));
    (g, t, s)
}

/// Signature `k` of `st` is the key type `key` with value type `value`: its
/// three names come after those of signatures `0..k` and are chosen against
/// them, and its declarations are an indexing getter and its fallible twin
/// taking `(this, key)` and an indexing setter taking `(this, key, value)`.
#[verifier::opaque]
pub open spec fn indexed_entry(
    generics: Seq<char>,
    this_ty: Seq<char>,
    st: AccessorState,
    k: int,
    key: TypeRef,
    value: TypeRef,
    ku: bool,
    vu: bool,
) -> bool {
    let names = indexed_names(st.0.subrange(0, 3 * k), key, value, ku, vu);
    &&& 0 <= k < st.1.len()
    &&& st.0[3 * k] == names.0
    &&& st.0[3 * k + 1] == names.1
    &&& st.0[3 * k + 2] == names.2
    &&& st.1[k] == indexed_getter_text(generics, this_ty, names.0, names.1, key, value)
    &&& st.2[k] == indexed_setter_text(generics, this_ty, names.2, key, value)
}

proof fn lemma_indexed_entry_kept(
    gen: Seq<char>,
    tt: Seq<char>,
    a: AccessorState,
    b: AccessorState,
    k: int,
    key: TypeRef,
    value: TypeRef,
    ku: bool,
    vu: bool,
)
    requires
        state_extends(a, b),
        state_wf(b),
        indexed_entry(gen, tt, b, k, key, value, ku, vu),
    ensures
        indexed_entry(gen, tt, a, k, key, value, ku, vu),
{
    reveal(indexed_entry);
    assert(a.0.subrange(0, 3 * k) =~= b.0.subrange(0, 3 * k));
    assert(a.0[3 * k] == a.0.subrange(0, b.0.len() as int)[3 * k]);
    assert(a.0[3 * k + 1] == a.0.subrange(0, b.0.len() as int)[3 * k + 1]);
    assert(a.0[3 * k + 2] == a.0.subrange(0, b.0.len() as int)[3 * k + 2]);
    assert(a.1[k] == a.1.subrange(0, b.1.len() as int)[k]);
    assert(a.2[k] == a.2.subrange(0, b.2.len() as int)[k]);
}

proof fn lemma_indexed_step_entry(
    gen: Seq<char>,
    tt: Seq<char>,
    st: AccessorState,
    key: TypeRef,
    value: TypeRef,
    ku: bool,
    vu: bool,
)
    requires
        state_wf(st),
    ensures
        state_wf(indexed_step(gen, tt, st, key, value, ku, vu)),
        state_extends(indexed_step(gen, tt, st, key, value, ku, vu), st),
        indexed_entry(gen, tt, indexed_step(gen, tt, st, key, value, ku, vu), st.1.len() as int, key, value, ku, vu),
{
    reveal(indexed_entry);
    let r = indexed_step(gen, tt, st, key, value, ku, vu);
    let k = st.1.len() as int;
    assert(r.0.subrange(0, st.0.len() as int) =~= st.0);
    assert(r.1.subrange(0, st.1.len() as int) =~= st.1);
    assert(r.2.subrange(0, st.2.len() as int) =~= st.2);
    assert(r.0.subrange(0, 3 * k) =~= st.0);
}

#[verifier::spinoff_prover]
#[verifier::rlimit(60)]
proof fn lemma_indexed_values_entries(
    gen: Seq<char>,
    tt: Seq<char>,
    st: AccessorState,
    key: TypeRef,
    vs: Seq<TypeRef>,
    ku: bool,
    vu: bool,
)
    requires
        state_wf(st),
    ensures
        state_wf(indexed_fold_values(gen, tt, st, key, vs, ku, vu)),
        state_extends(indexed_fold_values(gen, tt, st, key, vs, ku, vu), st),
        indexed_fold_values(gen, tt, st, key, vs, ku, vu).1.len() == st.1.len() + vs.len(),
        forall|j: int|
            0 <= j < vs.len() ==> indexed_entry(
                gen,
                tt,
                indexed_fold_values(gen, tt, st, key, vs, ku, vu),
                st.1.len() + j,
                key,
                #[trigger] vs[j],
                ku,
                vu,
            ),
    decreases vs.len(),
{
    let r = indexed_fold_values(gen, tt, st, key, vs, ku, vu);
    if vs.len() == 0 {
        assert(st.0.subrange(0, st.0.len() as int) =~= st.0);
        assert(st.1.subrange(0, st.1.len() as int) =~= st.1);
        assert(st.2.subrange(0, st.2.len() as int) =~= st.2);
    } else {
        let rest = vs.subrange(0, vs.len() - 1);
        let prev = indexed_fold_values(gen, tt, st, key, rest, ku, vu);
        lemma_indexed_values_entries(gen, tt, st, key, rest, ku, vu);
        lemma_indexed_step_entry(gen, tt, prev, key, vs[vs.len() - 1], ku, vu);
        lemma_extends_trans(r, prev, st);
        assert forall|j: int| 0 <= j < vs.len() implies indexed_entry(gen, tt, r, st.1.len() + j, key, #[trigger] vs[j], ku, vu) by {
            if j < vs.len() - 1 {
                assert(rest[j] == vs[j]);
                lemma_indexed_entry_kept(gen, tt, r, prev, st.1.len() + j, key, vs[j], ku, vu);
            }
        }
    }
}

#[verifier::spinoff_prover]
#[verifier::rlimit(60)]
proof fn lemma_indexed_fold_entries(
    gen: Seq<char>,
    tt: Seq<char>,
    ks: Seq<TypeRef>,
    vs: Seq<TypeRef>,
    ku: bool,
    vu: bool,
)
    ensures
        state_wf(indexed_fold(gen, tt, ks, vs, ku, vu)),
        indexed_fold(gen, tt, ks, vs, ku, vu).1.len() == ks.len() * vs.len(),
        forall|i: int, j: int|
            #![trigger ks[i], vs[j]]
            0 <= i < ks.len() && 0 <= j < vs.len() ==> indexed_entry(
                gen,
                tt,
                indexed_fold(gen, tt, ks, vs, ku, vu),
                i * vs.len() + j,
                ks[i],
                vs[j],
                ku,
                vu,
            ),
    decreases ks.len(),
{
    if ks.len() > 0 {
        let n = ks.len();
        let m = vs.len();
        let rest = ks.subrange(0, n - 1);
        let prev = indexed_fold(gen, tt, rest, vs, ku, vu);
        let r = indexed_fold(gen, tt, ks, vs, ku, vu);
        lemma_indexed_fold_entries(gen, tt, rest, vs, ku, vu);
        lemma_indexed_values_entries(gen, tt, prev, ks[n - 1], vs, ku, vu);
        assert((n - 1) * m + m == n * m) by (nonlinear_arith);
        assert forall|i: int, j: int|
            #![trigger ks[i], vs[j]]
            0 <= i < n && 0 <= j < m implies indexed_entry(gen, tt, r, i * m + j, ks[i], vs[j], ku, vu) by {
            if i < n - 1 {
                assert(rest[i] == ks[i]);
                assert(i * m + j < (n - 1) * m) by (nonlinear_arith)
                    requires
                        0 <= i < n - 1,
                        0 <= j < m,
                ;
                assert(indexed_entry(gen, tt, prev, i * m + j, rest[i], vs[j], ku, vu));
                lemma_indexed_entry_kept(gen, tt, r, prev, i * m + j, ks[i], vs[j], ku, vu);
            } else {
                assert(i * m + j == prev.1.len() + j);
            }
        }
    }
}

/// The accessors of an indexed record come one signature per (key
/// alternative, value alternative), keys outer and values inner: signature
/// `i * m + j` is key alternative `i` with value alternative `j`, it declares
/// an indexing getter, its fallible twin and an indexing setter, and its names
/// are chosen against those of all earlier signatures, with union-ness judged
/// on the declared key and value types.
pub proof fn lemma_indexed_accessor_order(decl: RecordDecl, cgctx: Option<&CodegenContext>, i: int, j: int)
    requires
        0 <= i < type_alternatives_spec(decl.key_type, cgctx, decl.body_scope, 0).len(),
        0 <= j < type_alternatives_spec(decl.value_type, cgctx, decl.body_scope, 0).len(),
    ensures
        indexed_entry(
            type_generics_spec(decl, cgctx),
            this_type(decl, cgctx),
            indexed_state(decl, cgctx),
            i * type_alternatives_spec(decl.value_type, cgctx, decl.body_scope, 0).len() + j,
            type_alternatives_spec(decl.key_type, cgctx, decl.body_scope, 0)[i],
            type_alternatives_spec(decl.value_type, cgctx, decl.body_scope, 0)[j],
            is_union_spec(decl.key_type, cgctx, decl.body_scope, 0),
            is_union_spec(decl.value_type, cgctx, decl.body_scope, 0),
        ),
        indexed_state(decl, cgctx).1.len() == type_alternatives_spec(decl.key_type, cgctx, decl.body_scope, 0).len()
            * type_alternatives_spec(decl.value_type, cgctx, decl.body_scope, 0).len(),
{
    let ks = type_alternatives_spec(decl.key_type, cgctx, decl.body_scope, 0);
    let vs = type_alternatives_spec(decl.value_type, cgctx, decl.body_scope, 0);
    lemma_indexed_fold_entries(
        type_generics_spec(decl, cgctx),
        this_type(decl, cgctx),
        ks,
        vs,
        is_union_spec(decl.key_type, cgctx, decl.body_scope, 0),
        is_union_spec(decl.value_type, cgctx, decl.body_scope, 0),
    );
    assert(ks[i] == ks[i] && vs[j] == vs[j]);
}

/// An indexed accessor keeps its base name when no earlier accessor took it:
/// the getter is `get`, `get_<key>`, `get_<value>` or `get_<value>_with_<key>`
/// by which declared sides are unions, the fallible getter `try_` and the
/// getter's name, and the setter `set...` like the getter.
pub proof fn lemma_indexed_free_names_kept(used: Seq<Seq<char>>, key: TypeRef, value: TypeRef, ku: bool, vu: bool)
    ensures
        !used.contains(indexed_get_base(key, value, ku, vu)) ==> indexed_names(used, key, value, ku, vu).0
            == indexed_get_base(key, value, ku, vu),
        !used.push(indexed_names(used, key, value, ku, vu).0).contains(
            "try_"@ + indexed_names(used, key, value, ku, vu).0,
        ) ==> indexed_names(used, key, value, ku, vu).1 == "try_"@ + indexed_names(used, key, value, ku, vu).0,
        !used.push(indexed_names(used, key, value, ku, vu).0).push(indexed_names(used, key, value, ku, vu).1).contains(
            indexed_set_base(key, value, ku, vu),
        ) ==> indexed_names(used, key, value, ku, vu).2 == indexed_set_base(key, value, ku, vu),
{
    let names = indexed_names(used, key, value, ku, vu);
    if !used.contains(indexed_get_base(key, value, ku, vu)) {
        lemma_free_name_kept(indexed_get_base(key, value, ku, vu), used);
    }
    if !used.push(names.0).contains("try_"@ + names.0) {
        lemma_free_name_kept("try_"@ + names.0, used.push(names.0));
    }
    if !used.push(names.0).push(names.1).contains(indexed_set_base(key, value, ku, vu)) {
        lemma_free_name_kept(indexed_set_base(key, value, ku, vu), used.push(names.0).push(names.1));
    }
}

/// `Default` and `new` are rendered exactly when construction is offered.
pub proof fn lemma_construction_offered_iff(
    rust_ident: Seq<char>,
    type_args: Seq<char>,
    type_generics: Seq<char>,
    offered: bool,
)
    ensures
        (construction_text(rust_ident, type_args, type_generics, offered).len() > 0) == offered,
{
    reveal_strlit("impl");
}


/// For any list of string literal keys: no two accessors share a name, three
/// names are taken per signature, and there are as many setters as getters,
/// one getter (with its fallible twin) per literal and value alternative.
pub proof fn lemma_literal_state_shape(decl: RecordDecl, cgctx: Option<&CodegenContext>, literals: Seq<Seq<char>>)
    ensures
        state_wf(literal_state(decl, cgctx, literals)),
        literal_state(decl, cgctx, literals).0.no_duplicates(),
        literal_state(decl, cgctx, literals).1.len() == literals.len()
            * type_alternatives_spec(decl.value_type, cgctx, decl.body_scope, 0).len(),
        literal_state(decl, cgctx, literals).2.len() == literals.len()
            * type_alternatives_spec(decl.value_type, cgctx, decl.body_scope, 0).len(),
{
    let tg = type_generics_spec(decl, cgctx);
    let vs = type_alternatives_spec(decl.value_type, cgctx, decl.body_scope, 0);
    let vu = is_union_spec(decl.value_type, cgctx, decl.body_scope, 0);
    lemma_literal_fold_distinct(tg, tg, this_type(decl, cgctx), literals, vs, vu);
}

/// For any declaration, taken as an indexed record: no two accessors share a
/// name, three names are taken per signature, and there are as many setters
/// as getters, one getter (with its fallible twin) per key alternative and
/// value alternative.
pub proof fn lemma_indexed_state_shape(decl: RecordDecl, cgctx: Option<&CodegenContext>)
    ensures
        state_wf(indexed_state(decl, cgctx)),
        indexed_state(decl, cgctx).0.no_duplicates(),
        indexed_state(decl, cgctx).1.len() == type_alternatives_spec(decl.key_type, cgctx, decl.body_scope, 0).len()
            * type_alternatives_spec(decl.value_type, cgctx, decl.body_scope, 0).len(),
        indexed_state(decl, cgctx).2.len() == type_alternatives_spec(decl.key_type, cgctx, decl.body_scope, 0).len()
            * type_alternatives_spec(decl.value_type, cgctx, decl.body_scope, 0).len(),
{
    let scope = decl.body_scope;
    lemma_indexed_fold_distinct(
        type_generics_spec(decl, cgctx),
        this_type(decl, cgctx),
        type_alternatives_spec(decl.key_type, cgctx, scope, 0),
        type_alternatives_spec(decl.value_type, cgctx, scope, 0),
        is_union_spec(decl.key_type, cgctx, scope, 0),
        is_union_spec(decl.value_type, cgctx, scope, 0),
    );
}

proof fn lemma_split_index(k: int, m: int)
    requires
        0 <= k,
        0 < m,
    ensures
        k == (k / m) * m + k % m,
        0 <= k % m < m,
        0 <= k / m,
{
    vstd::arithmetic::div_mod::lemma_fundamental_div_mod(k, m);
    vstd::arithmetic::div_mod::lemma_mod_bound(k, m);
    vstd::arithmetic::div_mod::lemma_div_pos_is_pos(k, m);
    vstd::arithmetic::mul::lemma_mul_is_commutative(m, k / m);
}

/// Every getter and setter of an indexed record is an indexing accessor:
/// declaration `k` is the getter pair and setter of key alternative `k / m`
/// with value alternative `k % m`, where `m` is the number of value
/// alternatives; none is a property accessor.
pub proof fn lemma_indexed_every_accessor(decl: RecordDecl, cgctx: Option<&CodegenContext>, k: int)
    requires
        0 <= k < indexed_state(decl, cgctx).1.len(),
    ensures
        indexed_entry(
            type_generics_spec(decl, cgctx),
            this_type(decl, cgctx),
            indexed_state(decl, cgctx),
            k,
            type_alternatives_spec(decl.key_type, cgctx, decl.body_scope, 0)[k / (type_alternatives_spec(decl.value_type, cgctx, decl.body_scope, 0).len() as int)],
            type_alternatives_spec(decl.value_type, cgctx, decl.body_scope, 0)[k % (type_alternatives_spec(decl.value_type, cgctx, decl.body_scope, 0).len() as int)],
            is_union_spec(decl.key_type, cgctx, decl.body_scope, 0),
            is_union_spec(decl.value_type, cgctx, decl.body_scope, 0),
        ),
{
    let n = type_alternatives_spec(decl.key_type, cgctx, decl.body_scope, 0).len() as int;
    let m = type_alternatives_spec(decl.value_type, cgctx, decl.body_scope, 0).len() as int;
    lemma_indexed_state_shape(decl, cgctx);
    if m == 0 {
        assert(n * m == 0) by (nonlinear_arith) requires m == 0;
    }
    lemma_split_index(k, m);
    let i = k / m;
    let j = k % m;
    assert(i < n) by (nonlinear_arith)
        requires
            k == i * m + j,
            0 <= j < m,
            k < n * m,
            0 <= i,
    ;
    lemma_indexed_accessor_order(decl, cgctx, i, j);
}

/// Every getter and setter of a record keyed by string literals is a
/// property accessor: declaration `k` is the getter pair and setter of literal
/// `k / m` with value alternative `k % m`, where `m` is the number of value
/// alternatives; its `js_name` is that literal.
pub proof fn lemma_literal_every_accessor(
    decl: RecordDecl,
    cgctx: Option<&CodegenContext>,
    literals: Seq<Seq<char>>,
    k: int,
)
    requires
        0 <= k < literal_state(decl, cgctx, literals).1.len(),
    ensures
        literal_entry(
            type_generics_spec(decl, cgctx),
            type_generics_spec(decl, cgctx),
            this_type(decl, cgctx),
            literal_state(decl, cgctx, literals),
            k,
            literals[k / (type_alternatives_spec(decl.value_type, cgctx, decl.body_scope, 0).len() as int)],
            type_alternatives_spec(decl.value_type, cgctx, decl.body_scope, 0)[k % (type_alternatives_spec(decl.value_type, cgctx, decl.body_scope, 0).len() as int)],
            is_union_spec(decl.value_type, cgctx, decl.body_scope, 0),
        ),
{
    let n = literals.len() as int;
    let m = type_alternatives_spec(decl.value_type, cgctx, decl.body_scope, 0).len() as int;
    lemma_literal_state_shape(decl, cgctx, literals);
    if m == 0 {
        assert(n * m == 0) by (nonlinear_arith) requires m == 0;
    }
    lemma_split_index(k, m);
    let i = k / m;
    let j = k % m;
    assert(i < n) by (nonlinear_arith)
        requires
            k == i * m + j,
            0 <= j < m,
            k < n * m,
            0 <= i,
    ;
    lemma_literal_accessor_order(decl, cgctx, literals, i, j);
}


// ---------------------------------------------------------------------------
// Flavor names, alias chains, and the text of the generated declarations
// ---------------------------------------------------------------------------

/// The method-name fragment of a literal key never reads as one of the type
/// flavors `string`, `number`, `bool`, `big_int`, `undefined`, `null`,
/// `js_value`, `object`, `typed_array`, `slice` and `function`: a literal whose
/// snake-case name is one of them gets the fragment `string_` followed by that
/// name, and any other literal keeps its snake-case name.
pub proof fn lemma_literal_fragment_avoids_flavors(literal: Seq<char>)
    ensures
        literal_method_name_spec(literal) != "string"@,
        literal_method_name_spec(literal) != "number"@,
        literal_method_name_spec(literal) != "bool"@,
        literal_method_name_spec(literal) != "big_int"@,
        literal_method_name_spec(literal) != "undefined"@,
        literal_method_name_spec(literal) != "null"@,
        literal_method_name_spec(literal) != "js_value"@,
        literal_method_name_spec(literal) != "object"@,
        literal_method_name_spec(literal) != "typed_array"@,
        literal_method_name_spec(literal) != "slice"@,
        literal_method_name_spec(literal) != "function"@,
        ({
            let n = normalized_name_spec(literal);
            n == "string"@ || n == "number"@ || n == "bool"@ || n == "big_int"@ || n == "undefined"@
                || n == "null"@ || n == "js_value"@ || n == "object"@ || n == "typed_array"@
                || n == "slice"@ || n == "function"@
        }) ==> literal_method_name_spec(literal) == "string_"@ + normalized_name_spec(literal),
        !({
            let n = normalized_name_spec(literal);
            n == "string"@ || n == "number"@ || n == "bool"@ || n == "big_int"@ || n == "undefined"@
                || n == "null"@ || n == "js_value"@ || n == "object"@ || n == "typed_array"@
                || n == "slice"@ || n == "function"@
        }) ==> literal_method_name_spec(literal) == normalized_name_spec(literal),
{
    lemma_literal_method_name_not_flavor(literal);
}

/// A plain identifier that names an alias is a union exactly when the alias
/// target is one, judged one level deeper; alias chains are followed to a
/// depth of 16.
pub proof fn lemma_union_through_alias(
    ty: TypeRef,
    ctx: &CodegenContext,
    scope: ScopeId,
    depth: nat,
    name: Seq<char>,
    target: TypeRef,
)
    requires
        ident_name(ty) == Some(name),
        ctx.alias(name, scope) == Some(target),
        depth <= 16,
    ensures
        is_union_spec(ty, Some(ctx), scope, depth) == is_union_spec(target, Some(ctx), scope, depth + 1),
{
}

/// A union type is a union at every depth up to 16; a type that is neither a
/// union nor a plain identifier naming an alias is not a union; past depth 16
/// nothing is.
pub proof fn lemma_union_base_cases(ty: TypeRef, cgctx: Option<&CodegenContext>, scope: ScopeId, depth: nat)
    ensures
        depth <= 16 && ty is Union ==> is_union_spec(ty, cgctx, scope, depth),
        !(ty is Union) && (forall|ctx: &CodegenContext, name: Seq<char>|
            cgctx == Some(ctx) && ident_name(ty) == Some(name) ==> ctx.alias(name, scope) is None)
            ==> !is_union_spec(ty, cgctx, scope, depth),
        depth > 16 ==> !is_union_spec(ty, cgctx, scope, depth),
{
}

/// An alias of an alias of a union is a union.
pub proof fn lemma_alias_of_alias_of_union(
    ty: TypeRef,
    ctx: &CodegenContext,
    scope: ScopeId,
    depth: nat,
    name: Seq<char>,
    middle: TypeRef,
    middle_name: Seq<char>,
    target: TypeRef,
)
    requires
        ident_name(ty) == Some(name),
        ctx.alias(name, scope) == Some(middle),
        ident_name(middle) == Some(middle_name),
        ctx.alias(middle_name, scope) == Some(target),
        target is Union,
        depth + 2 <= 16,
    ensures
        is_union_spec(ty, Some(ctx), scope, depth),
{
    lemma_union_through_alias(ty, ctx, scope, depth, name, middle);
    lemma_union_through_alias(middle, ctx, scope, depth + 1, middle_name, target);
}


/// The text of a `Default` impl and a `new` constructor for the wrapper type
/// `rust_ident` with type arguments `type_args`, both generic over the
/// record's bounded parameters `type_generics`.
pub open spec fn empty_construction_text(rust_ident: Seq<char>, type_args: Seq<char>, type_generics: Seq<char>) -> Seq<char> {
    "impl"@ + type_generics + " Default for "@ + rust_ident + type_args
        + " { fn default() -> Self { JsCast::unchecked_into(js_sys::Object::new()) } }"@
        + " impl"@ + type_generics + " "@ + rust_ident + type_args
        + " { pub fn new() -> Self { Self::default() } } "@
}

/// Offering construction appends exactly a `Default` impl and a `new`
/// constructor, each declared with the record's bounded generics, to the
/// bindings rendered without it.
pub proof fn lemma_render_construction(
    extern_attr: Seq<char>,
    rust_name: Seq<char>,
    rust_ident: Seq<char>,
    type_args: Seq<char>,
    type_generics: Seq<char>,
    source_name: Seq<char>,
    getters: Seq<Seq<char>>,
    setters: Seq<Seq<char>>,
)
    ensures
        render_text(extern_attr, rust_name, rust_ident, type_args, type_generics, source_name, getters, setters, true)
            == render_text(extern_attr, rust_name, rust_ident, type_args, type_generics, source_name, getters, setters, false)
            + empty_construction_text(rust_ident, type_args, type_generics),
{
    let without = render_text(extern_attr, rust_name, rust_ident, type_args, type_generics, source_name, getters, setters, false);
    let body = extern_attr
        + " extern \"C\" { #[wasm_bindgen(extends = Object)] #[derive(Debug, Clone, PartialEq, Eq)] pub type "@
        + rust_ident + type_generics + "; "@ + concat_all(getters) + concat_all(setters) + "} "@
        + alias_text(rust_name, rust_ident, source_name);
    assert(without =~= body);
    reveal_strlit(" { fn default() -> Self { JsCast::unchecked_into(js_sys::Object::new()) } } impl");
    reveal_strlit(" { fn default() -> Self { JsCast::unchecked_into(js_sys::Object::new()) } }");
    reveal_strlit(" impl");
    assert(construction_text(rust_ident, type_args, type_generics, true)
        =~= empty_construction_text(rust_ident, type_args, type_generics));
}

/// A record keyed by an open type that is not a finite set gets `Default`
/// and `new`, with the record's bounded generics, after its bindings; any
/// other record gets neither.
pub proof fn lemma_record_construction(
    decl: RecordDecl,
    module_context: ModuleContext,
    cgctx: Option<&CodegenContext>,
)
    ensures
        ({
            let plain = render_text(
                extern_attr_spec(module_context),
                rust_name_spec(decl, cgctx),
                rust_name_spec(decl, cgctx),
                type_args_spec(decl),
                type_generics_spec(decl, cgctx),
                decl.name@,
                record_accessors(decl, cgctx).1,
                record_accessors(decl, cgctx).2,
                false,
            );
            if literal_keys_spec(decl.key_type, cgctx, decl.body_scope, 0) is None
                && !is_finite_spec(decl.key_type, cgctx, decl.body_scope, 0) {
                record_source_spec(decl, module_context, cgctx) == plain + empty_construction_text(
                    rust_name_spec(decl, cgctx),
                    type_args_spec(decl),
                    type_generics_spec(decl, cgctx),
                )
            } else {
                record_source_spec(decl, module_context, cgctx) == plain
            }
        }),
{
    lemma_record_source_shape(decl, module_context, cgctx);
    lemma_render_construction(
        extern_attr_spec(module_context),
        rust_name_spec(decl, cgctx),
        rust_name_spec(decl, cgctx),
        type_args_spec(decl),
        type_generics_spec(decl, cgctx),
        decl.name@,
        record_accessors(decl, cgctx).1,
        record_accessors(decl, cgctx).2,
    );
}


/// The indexing getter `name` and its fallible twin `try_name` of a receiver
/// of type `this_ty`, both generic over `generics`, reading a `value` at a
/// `key`.
pub open spec fn indexing_getter_decls(
    name: Seq<char>,
    try_name: Seq<char>,
    generics: Seq<char>,
    this_ty: Seq<char>,
    key: TypeRef,
    value: TypeRef,
) -> Seq<char> {
    let key_ty = rust_type_spec(key, TypePosition::Argument);
    let ret = rust_type_spec(value, TypePosition::Return);
    "#[wasm_bindgen(method, indexing_getter)] pub fn "@ + name + generics + "(this: &"@ + this_ty
        + ", key: "@ + key_ty + ",) -> "@ + ret + "; "@
        + "#[wasm_bindgen(catch, method, indexing_getter)] pub fn "@ + try_name + generics
        + "(this: &"@ + this_ty + ", key: "@ + key_ty + ",) -> Result<"@ + ret + ", JsValue>; "@
}

proof fn lemma_indexing_getter_text(
    generics: Seq<char>,
    this_ty: Seq<char>,
    g: Seq<char>,
    t: Seq<char>,
    key: TypeRef,
    value: TypeRef,
)
    ensures
        indexed_getter_text(generics, this_ty, g, t, key, value)
            == indexing_getter_decls(g, t, generics, this_ty, key, value),
{
    reveal_strlit("#[wasm_bindgen(");
    reveal_strlit(")] pub fn ");
    reveal_strlit("(this: &");
    reveal_strlit(", ");
    reveal_strlit(")");
    reveal_strlit("; ");
    reveal_strlit("method, indexing_getter");
    reveal_strlit("catch, method, indexing_getter");
    reveal_strlit("key");
    reveal_strlit(": ");
    reveal_strlit(",");
    reveal_strlit(" -> ");
    reveal_strlit(" -> Result<");
    reveal_strlit(", JsValue>");
    reveal_strlit("#[wasm_bindgen(method, indexing_getter)] pub fn ");
    reveal_strlit("#[wasm_bindgen(catch, method, indexing_getter)] pub fn ");
    reveal_strlit(", key: ");
    reveal_strlit(",) -> ");
    reveal_strlit(",) -> Result<");
    reveal_strlit(", JsValue>; ");
    let key_ty = rust_type_spec(key, TypePosition::Argument);
    let ret = rust_type_spec(value, TypePosition::Return);
    let params = "key"@ + ": "@ + key_ty + ","@;
    assert(method_decl("method, indexing_getter"@, g, generics, this_ty, params, " -> "@ + ret)
        =~= "#[wasm_bindgen(method, indexing_getter)] pub fn "@ + g + generics + "(this: &"@ + this_ty
        + ", key: "@ + key_ty + ",) -> "@ + ret + "; "@);
    assert(method_decl("catch, method, indexing_getter"@, t, generics, this_ty, params, " -> Result<"@ + ret + ", JsValue>"@)
        =~= "#[wasm_bindgen(catch, method, indexing_getter)] pub fn "@ + t + generics
        + "(this: &"@ + this_ty + ", key: "@ + key_ty + ",) -> Result<"@ + ret + ", JsValue>; "@);
    assert(indexing_getter_decls(g, t, generics, this_ty, key, value) =~= (
        "#[wasm_bindgen(method, indexing_getter)] pub fn "@ + g + generics + "(this: &"@ + this_ty
        + ", key: "@ + key_ty + ",) -> "@ + ret + "; "@) + (
        "#[wasm_bindgen(catch, method, indexing_getter)] pub fn "@ + t + generics
        + "(this: &"@ + this_ty + ", key: "@ + key_ty + ",) -> Result<"@ + ret + ", JsValue>; "@));
}


/// Each (key, value) signature adds to the getters an indexing getter and a
/// fallible indexing getter that carry the given generics, named by the first
/// two of the three names it takes.
pub proof fn lemma_indexed_step_getters(
    generics: Seq<char>,
    this_ty: Seq<char>,
    st: AccessorState,
    key: TypeRef,
    value: TypeRef,
    key_is_union: bool,
    value_is_union: bool,
)
    ensures
        ({
            let r = indexed_step(generics, this_ty, st, key, value, key_is_union, value_is_union);
            &&& r.0.len() == st.0.len() + 3
            &&& r.1 == st.1.push(indexing_getter_decls(
                r.0[st.0.len() as int],
                r.0[st.0.len() as int + 1],
                generics,
                this_ty,
                key,
                value,
            ))
        }),
{
    let r = indexed_step(generics, this_ty, st, key, value, key_is_union, value_is_union);
    lemma_indexing_getter_text(generics, this_ty, r.0[st.0.len() as int], r.0[st.0.len() as int + 1], key, value);
}

/// Every indexing getter and fallible getter of an indexed record is declared
/// with the record's bounded type generics (`<T: ::wasm_bindgen::JsGeneric>`
/// for a record generic over `T`, nothing for one without parameters) right
/// after its name, on a receiver of the record's own type with its type
/// arguments: getter pair `k` reads value alternative `k % m` at key
/// alternative `k / m`, where `m` is the number of value alternatives.
pub proof fn lemma_indexed_getters_carry_generics(decl: RecordDecl, cgctx: Option<&CodegenContext>, k: int)
    requires
        0 <= k < indexed_state(decl, cgctx).1.len(),
    ensures
        indexed_state(decl, cgctx).1[k] == indexing_getter_decls(
            indexed_state(decl, cgctx).0[3 * k],
            indexed_state(decl, cgctx).0[3 * k + 1],
            type_generics_spec(decl, cgctx),
            rust_name_spec(decl, cgctx) + type_args_spec(decl),
            type_alternatives_spec(decl.key_type, cgctx, decl.body_scope, 0)[k / (type_alternatives_spec(decl.value_type, cgctx, decl.body_scope, 0).len() as int)],
            type_alternatives_spec(decl.value_type, cgctx, decl.body_scope, 0)[k % (type_alternatives_spec(decl.value_type, cgctx, decl.body_scope, 0).len() as int)],
        ),
{
    let m = type_alternatives_spec(decl.value_type, cgctx, decl.body_scope, 0).len() as int;
    let st = indexed_state(decl, cgctx);
    let key = type_alternatives_spec(decl.key_type, cgctx, decl.body_scope, 0)[k / m];
    let value = type_alternatives_spec(decl.value_type, cgctx, decl.body_scope, 0)[k % m];
    lemma_indexed_every_accessor(decl, cgctx, k);
    reveal(indexed_entry);
    lemma_indexing_getter_text(
        type_generics_spec(decl, cgctx),
        this_type(decl, cgctx),
        st.0[3 * k],
        st.0[3 * k + 1],
        key,
        value,
    );
}

/// A single parameter type needs `slice_to_array` exactly when it is an array.
pub proof fn lemma_slice_to_array_single(ty: TypeRef)
    ensures
        needs_slice_to_array_spec(seq![ty]) <==> ty is Array,
{
    if ty is Array {
        assert(seq![ty][0] is Array);
    }
}

/// A key and a value parameter need `slice_to_array` exactly when one of
/// them is an array.
pub proof fn lemma_slice_to_array_pair(key: TypeRef, value: TypeRef)
    ensures
        needs_slice_to_array_spec(seq![key, value]) <==> (key is Array || value is Array),
{
    if key is Array {
        assert(seq![key, value][0] is Array);
    }
    if value is Array {
        assert(seq![key, value][1] is Array);
    }
}

/// The setter `name` of the property written as the string literal token
/// `literal_text`, on a receiver of type `this_ty`, generic over `generics`;
/// its attribute asks for `slice_to_array` exactly when the value type is an
/// array.
pub open spec fn property_setter_decl(
    name: Seq<char>,
    generics: Seq<char>,
    this_ty: Seq<char>,
    literal_text: Seq<char>,
    value: TypeRef,
) -> Seq<char> {
    "#[wasm_bindgen(method, setter, js_name = "@ + literal_text + (if value is Array {
        ", slice_to_array"@
    } else {
        Seq::empty()
    }) + ")] pub fn "@ + name + generics + "(this: &"@ + this_ty + ", value: "@ + rust_type_spec(
        value,
        TypePosition::Argument,
    ) + ",); "@
}

proof fn lemma_property_setter_text(
    generics: Seq<char>,
    this_ty: Seq<char>,
    s: Seq<char>,
    literal_text: Seq<char>,
    value: TypeRef,
)
    ensures
        literal_setter_text(generics, this_ty, s, literal_text, value)
            == property_setter_decl(s, generics, this_ty, literal_text, value),
{
    reveal_strlit("#[wasm_bindgen(");
    reveal_strlit(")] pub fn ");
    reveal_strlit("(this: &");
    reveal_strlit(", ");
    reveal_strlit(")");
    reveal_strlit("; ");
    reveal_strlit("method, setter, js_name = ");
    reveal_strlit("#[wasm_bindgen(method, setter, js_name = ");
    reveal_strlit("value");
    reveal_strlit(": ");
    reveal_strlit(",");
    reveal_strlit(", value: ");
    reveal_strlit(",); ");
    lemma_slice_to_array_single(value);
    let vt = rust_type_spec(value, TypePosition::Argument);
    let slice = if value is Array {
        ", slice_to_array"@
    } else {
        Seq::empty()
    };
    assert(slice_attr(needs_slice_to_array_spec(seq![value])) == slice);
    assert(method_decl(
        "method, setter, js_name = "@ + literal_text + slice,
        s,
        generics,
        this_ty,
        "value"@ + ": "@ + vt + ","@,
        Seq::empty(),
    ) =~= property_setter_decl(s, generics, this_ty, literal_text, value));
}

/// Each value signature of a property adds to the setters one property
/// setter named by the last of the three names it takes, whose attribute
/// names the property by `literal_text` and asks for `slice_to_array`
/// exactly when the value type is an array.
pub proof fn lemma_property_step_setter(
    type_generics: Seq<char>,
    generics: Seq<char>,
    this_ty: Seq<char>,
    st: AccessorState,
    literal_name: Seq<char>,
    literal_text: Seq<char>,
    value: TypeRef,
    value_is_union: bool,
)
    ensures
        ({
            let r = property_step(type_generics, generics, this_ty, st, literal_name, literal_text, value, value_is_union);
            &&& r.0.len() == st.0.len() + 3
            &&& r.2 == st.2.push(property_setter_decl(
                r.0[st.0.len() as int + 2],
                generics,
                this_ty,
                literal_text,
                value,
            ))
        }),
{
    let r = property_step(type_generics, generics, this_ty, st, literal_name, literal_text, value, value_is_union);
    lemma_property_setter_text(generics, this_ty, r.0[st.0.len() as int + 2], literal_text, value);
}

/// Every property setter of a record keyed by string literals names its
/// property by the literal's token and asks for `slice_to_array` exactly when
/// its value type is an array: setter `k` writes value alternative `k % m` of
/// literal `k / m`, where `m` is the number of value alternatives.
pub proof fn lemma_literal_setters_slice_to_array(
    decl: RecordDecl,
    cgctx: Option<&CodegenContext>,
    literals: Seq<Seq<char>>,
    k: int,
)
    requires
        0 <= k < literal_state(decl, cgctx, literals).2.len(),
    ensures
        literal_state(decl, cgctx, literals).2[k] == property_setter_decl(
            literal_state(decl, cgctx, literals).0[3 * k + 2],
            type_generics_spec(decl, cgctx),
            rust_name_spec(decl, cgctx) + type_args_spec(decl),
            string_literal_repr(literals[k / (type_alternatives_spec(decl.value_type, cgctx, decl.body_scope, 0).len() as int)]),
            type_alternatives_spec(decl.value_type, cgctx, decl.body_scope, 0)[k % (type_alternatives_spec(decl.value_type, cgctx, decl.body_scope, 0).len() as int)],
        ),
{
    let m = type_alternatives_spec(decl.value_type, cgctx, decl.body_scope, 0).len() as int;
    let st = literal_state(decl, cgctx, literals);
    lemma_literal_state_shape(decl, cgctx, literals);
    lemma_literal_every_accessor(decl, cgctx, literals, k);
    reveal(literal_entry);
    lemma_property_setter_text(
        type_generics_spec(decl, cgctx),
        this_type(decl, cgctx),
        st.0[3 * k + 2],
        string_literal_repr(literals[k / m]),
        type_alternatives_spec(decl.value_type, cgctx, decl.body_scope, 0)[k % m],
    );
}


/// The indexing setter `name` of a receiver of type `this_ty`, generic over
/// `generics`, writing a `value` at a `key`; its attribute asks for
/// `slice_to_array` exactly when the key or the value type is an array.
pub open spec fn indexing_setter_decl(
    name: Seq<char>,
    generics: Seq<char>,
    this_ty: Seq<char>,
    key: TypeRef,
    value: TypeRef,
) -> Seq<char> {
    "#[wasm_bindgen(method, indexing_setter"@ + (if key is Array || value is Array {
        ", slice_to_array"@
    } else {
        Seq::empty()
    }) + ")] pub fn "@ + name + generics + "(this: &"@ + this_ty + ", key: "@ + rust_type_spec(
        key,
        TypePosition::Argument,
    ) + ", value: "@ + rust_type_spec(value, TypePosition::Argument) + ",); "@
}

proof fn lemma_indexing_setter_text(
    generics: Seq<char>,
    this_ty: Seq<char>,
    s: Seq<char>,
    key: TypeRef,
    value: TypeRef,
)
    ensures
        indexed_setter_text(generics, this_ty, s, key, value) == indexing_setter_decl(s, generics, this_ty, key, value),
{
    reveal_strlit("#[wasm_bindgen(");
    reveal_strlit(")] pub fn ");
    reveal_strlit("(this: &");
    reveal_strlit(", ");
    reveal_strlit(")");
    reveal_strlit("; ");
    reveal_strlit("method, indexing_setter");
    reveal_strlit("#[wasm_bindgen(method, indexing_setter");
    reveal_strlit("key");
    reveal_strlit("value");
    reveal_strlit(": ");
    reveal_strlit(",");
    reveal_strlit(", key: ");
    reveal_strlit(", value: ");
    reveal_strlit(",); ");
    lemma_slice_to_array_pair(key, value);
    let kt = rust_type_spec(key, TypePosition::Argument);
    let vt = rust_type_spec(value, TypePosition::Argument);
    let slice = if key is Array || value is Array {
        ", slice_to_array"@
    } else {
        Seq::empty()
    };
    assert(slice_attr(needs_slice_to_array_spec(seq![key, value])) == slice);
    assert(method_decl(
        "method, indexing_setter"@ + slice,
        s,
        generics,
        this_ty,
        "key"@ + ": "@ + kt + ", "@ + ("value"@ + ": "@ + vt) + ","@,
        Seq::empty(),
    ) =~= indexing_setter_decl(s, generics, this_ty, key, value));
}

/// Every indexing setter of an indexed record carries the record's bounded
/// type generics and asks for `slice_to_array` exactly when its key or value
/// type is an array: setter `k` writes value alternative `k % m` at key
/// alternative `k / m`, where `m` is the number of value alternatives.
pub proof fn lemma_indexed_setters(decl: RecordDecl, cgctx: Option<&CodegenContext>, k: int)
    requires
        0 <= k < indexed_state(decl, cgctx).2.len(),
    ensures
        indexed_state(decl, cgctx).2[k] == indexing_setter_decl(
            indexed_state(decl, cgctx).0[3 * k + 2],
            type_generics_spec(decl, cgctx),
            rust_name_spec(decl, cgctx) + type_args_spec(decl),
            type_alternatives_spec(decl.key_type, cgctx, decl.body_scope, 0)[k / (type_alternatives_spec(decl.value_type, cgctx, decl.body_scope, 0).len() as int)],
            type_alternatives_spec(decl.value_type, cgctx, decl.body_scope, 0)[k % (type_alternatives_spec(decl.value_type, cgctx, decl.body_scope, 0).len() as int)],
        ),
{
    let m = type_alternatives_spec(decl.value_type, cgctx, decl.body_scope, 0).len() as int;
    let st = indexed_state(decl, cgctx);
    lemma_indexed_state_shape(decl, cgctx);
    lemma_indexed_every_accessor(decl, cgctx, k);
    reveal(indexed_entry);
    lemma_indexing_setter_text(
        type_generics_spec(decl, cgctx),
        this_type(decl, cgctx),
        st.0[3 * k + 2],
        type_alternatives_spec(decl.key_type, cgctx, decl.body_scope, 0)[k / m],
        type_alternatives_spec(decl.value_type, cgctx, decl.body_scope, 0)[k % m],
    );
}

/// The property getter `name` and its fallible twin `try_name` of the
/// property written as the string literal token `literal_text`, on a receiver
/// of type `this_ty`, both generic over `generics`.
pub open spec fn property_getter_decls(
    name: Seq<char>,
    try_name: Seq<char>,
    generics: Seq<char>,
    this_ty: Seq<char>,
    literal_text: Seq<char>,
    value: TypeRef,
) -> Seq<char> {
    let ret = rust_type_spec(value, TypePosition::Return);
    "#[wasm_bindgen(method, getter, js_name = "@ + literal_text + ")] pub fn "@ + name + generics
        + "(this: &"@ + this_ty + ", ) -> "@ + ret + "; "@
        + "#[wasm_bindgen(catch, method, getter, js_name = "@ + literal_text + ")] pub fn "@ + try_name
        + generics + "(this: &"@ + this_ty + ", ) -> Result<"@ + ret + ", JsValue>; "@
}

proof fn lemma_property_getter_text(
    generics: Seq<char>,
    this_ty: Seq<char>,
    g: Seq<char>,
    t: Seq<char>,
    literal_text: Seq<char>,
    value: TypeRef,
)
    ensures
        literal_getter_text(generics, this_ty, g, t, literal_text, value)
            == property_getter_decls(g, t, generics, this_ty, literal_text, value),
{
    reveal_strlit("#[wasm_bindgen(");
    reveal_strlit(")] pub fn ");
    reveal_strlit("(this: &");
    reveal_strlit(", ");
    reveal_strlit(")");
    reveal_strlit("; ");
    reveal_strlit("js_name = ");
    reveal_strlit("method, getter, ");
    reveal_strlit("catch, method, getter, ");
    reveal_strlit(" -> ");
    reveal_strlit(" -> Result<");
    reveal_strlit(", JsValue>");
    reveal_strlit("#[wasm_bindgen(method, getter, js_name = ");
    reveal_strlit("#[wasm_bindgen(catch, method, getter, js_name = ");
    reveal_strlit(", ) -> ");
    reveal_strlit(", ) -> Result<");
    reveal_strlit(", JsValue>; ");
    let ret = rust_type_spec(value, TypePosition::Return);
    let js_name = "js_name = "@ + literal_text;
    let a = "#[wasm_bindgen(method, getter, js_name = "@ + literal_text + ")] pub fn "@ + g + generics
        + "(this: &"@ + this_ty + ", ) -> "@ + ret + "; "@;
    let b = "#[wasm_bindgen(catch, method, getter, js_name = "@ + literal_text + ")] pub fn "@ + t
        + generics + "(this: &"@ + this_ty + ", ) -> Result<"@ + ret + ", JsValue>; "@;
    assert(method_decl("method, getter, "@ + js_name, g, generics, this_ty, Seq::empty(), " -> "@ + ret) =~= a);
    assert(method_decl(
        "catch, method, getter, "@ + js_name,
        t,
        generics,
        this_ty,
        Seq::empty(),
        " -> Result<"@ + ret + ", JsValue>"@,
    ) =~= b);
    assert(property_getter_decls(g, t, generics, this_ty, literal_text, value) =~= a + b);
}

/// Every property getter pair of a record keyed by string literals carries
/// the record's bounded type generics and names its property by the
/// literal's token: getter pair `k` reads value alternative `k % m` of literal
/// `k / m`, where `m` is the number of value alternatives.
pub proof fn lemma_literal_getters(
    decl: RecordDecl,
    cgctx: Option<&CodegenContext>,
    literals: Seq<Seq<char>>,
    k: int,
)
    requires
        0 <= k < literal_state(decl, cgctx, literals).1.len(),
    ensures
        literal_state(decl, cgctx, literals).1[k] == property_getter_decls(
            literal_state(decl, cgctx, literals).0[3 * k],
            literal_state(decl, cgctx, literals).0[3 * k + 1],
            type_generics_spec(decl, cgctx),
            rust_name_spec(decl, cgctx) + type_args_spec(decl),
            string_literal_repr(literals[k / (type_alternatives_spec(decl.value_type, cgctx, decl.body_scope, 0).len() as int)]),
            type_alternatives_spec(decl.value_type, cgctx, decl.body_scope, 0)[k % (type_alternatives_spec(decl.value_type, cgctx, decl.body_scope, 0).len() as int)],
        ),
{
    let m = type_alternatives_spec(decl.value_type, cgctx, decl.body_scope, 0).len() as int;
    let st = literal_state(decl, cgctx, literals);
    lemma_literal_every_accessor(decl, cgctx, literals, k);
    reveal(literal_entry);
    lemma_property_getter_text(
        type_generics_spec(decl, cgctx),
        this_type(decl, cgctx),
        st.0[3 * k],
        st.0[3 * k + 1],
        string_literal_repr(literals[k / m]),
        type_alternatives_spec(decl.value_type, cgctx, decl.body_scope, 0)[k % m],
    );
}

} // verus!
