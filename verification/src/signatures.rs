//! Expansion of union-typed parameters into one signature per member.
use vstd::prelude::*;
use crate::ir::{ScopeId, TypeRef};
use crate::context::CodegenContext;
use crate::records::{alias_of, is_union_spec, is_union_type};

verus! {

/// The types that a parameter of type `ty` is expanded into: each member of a
/// union (flattened, and followed through aliases of unions), or `ty` itself.
pub open spec fn type_alternatives_spec(ty: TypeRef, cgctx: Option<&CodegenContext>, scope: ScopeId, depth: nat) -> Seq<TypeRef>
    decreases 17 - depth, 1nat, 0nat,
{
    if depth > 16 {
        seq![ty]
    } else {
        match ty {
            TypeRef::Union(members) => member_alternatives(members@, cgctx, scope, depth + 1),
            _ => match alias_of(ty, cgctx, scope) {
                Some(target) => if is_union_spec(target, cgctx, scope, depth + 1) {
                    type_alternatives_spec(target, cgctx, scope, depth + 1)
                } else {
                    seq![ty]
                },
                None => seq![ty],
            },
        }
    }
}

/// The alternatives of the union members `ms`, concatenated in order.
pub open spec fn member_alternatives(ms: Seq<TypeRef>, cgctx: Option<&CodegenContext>, scope: ScopeId, depth: nat) -> Seq<TypeRef>
    decreases 18 - depth, 0nat, ms.len(),
{
    if depth > 17 || ms.len() == 0 {
        Seq::empty()
    } else {
        member_alternatives(ms.subrange(0, ms.len() - 1), cgctx, scope, depth)
            + type_alternatives_spec(ms[ms.len() - 1], cgctx, scope, depth)
    }
}

/// The types behind a list of references.
pub open spec fn deref_all(v: Seq<&TypeRef>) -> Seq<TypeRef> {
    v.map_values(|t: &TypeRef| *t)
}

/// Expands `ty` into the types of the signatures generated for it.
pub fn type_alternatives<'a>(
    ty: &'a TypeRef,
    cgctx: Option<&'a CodegenContext>,
    scope: ScopeId,
    depth: usize,
) -> (res: Vec<&'a TypeRef>)
    ensures
        deref_all(res@) == type_alternatives_spec(*ty, cgctx, scope, depth as nat),
    decreases 17 - depth,
{
    let mut res: Vec<&'a TypeRef> = Vec::new();
    if depth > 16 {
        res.push(ty);
        assert(deref_all(res@) =~= seq![*ty]);
        return res;
    }
    match ty {
        TypeRef::Union(members) => {
            let ghost d = depth as nat + 1;
            let mut i: usize = 0;
            while i < members.len()
                invariant
                    depth <= 16,
                    d == depth as nat + 1,
                    *ty == TypeRef::Union(*members),
                    i <= members@.len(),
                    deref_all(res@) == member_alternatives(members@.subrange(0, i as int), cgctx, scope, d),
                decreases members@.len() - i,
            {
                assert(members@.subrange(0, i + 1).subrange(0, i as int) =~= members@.subrange(
                    0,
                    i as int,
                ));
                let mut alts = type_alternatives(&members[i], cgctx, scope, depth + 1);
                let ghost before = res@;
                let ghost added = alts@;
                res.append(&mut alts);
                assert(deref_all(res@) =~= deref_all(before) + deref_all(added));
                i = i + 1;
            }
            assert(members@.subrange(0, members@.len() as int) =~= members@);
            res
        },
        _ => {
            let target = match ty.as_ident() {
                Some(name) => match cgctx {
                    Some(ctx) => ctx.resolve_alias(name, scope),
                    None => None,
                },
                None => None,
            };
            match target {
                Some(target) => {
                    if is_union_type(target, cgctx, scope, depth + 1) {
                        type_alternatives(target, cgctx, scope, depth + 1)
                    } else {
                        res.push(ty);
                        assert(deref_all(res@) =~= seq![*ty]);
                        res
                    }
                },
                None => {
                    res.push(ty);
                    assert(deref_all(res@) =~= seq![*ty]);
                    res
                },
            }
        },
    }
}

} // verus!
