//! What the generator knows about the declarations around a record: aliases,
//! named sets of string literals, and locals that were renamed.
use vstd::prelude::*;
use crate::ir::{ScopeId, TypeRef};

verus! {

/// `type name = target` declared in `scope`.
#[derive(Debug)]
pub struct AliasDecl {
    pub scope: ScopeId,
    pub name: String,
    pub target: TypeRef,
}

/// A type name declared in `scope` that stands for a finite set of string
/// literals (a string enum or a union of string literals).
#[derive(Debug)]
pub struct LiteralSetDecl {
    pub scope: ScopeId,
    pub name: String,
    pub literals: Vec<String>,
}

/// A declaration whose Rust name differs from its TypeScript name.
#[derive(Debug)]
pub struct RenamedLocal {
    pub name: String,
    pub rust_name: String,
}

/// The code generation context.
#[derive(Debug)]
pub struct CodegenContext {
    pub renamed_locals: Vec<RenamedLocal>,
    pub aliases: Vec<AliasDecl>,
    pub string_literal_sets: Vec<LiteralSetDecl>,
    pub experimental_generic_mono: bool,
}

/// The target of the first alias from index `i` on that declares `name` in `scope`.
pub open spec fn alias_from(entries: Seq<AliasDecl>, name: Seq<char>, scope: ScopeId, i: int) -> Option<TypeRef>
    decreases entries.len() - i,
{
    if i < 0 || i >= entries.len() {
        None
    } else if entries[i].name@ == name && entries[i].scope == scope {
        Some(entries[i].target)
    } else {
        alias_from(entries, name, scope, i + 1)
    }
}

/// The literals of the first literal set from index `i` on that declares `name` in `scope`.
pub open spec fn literal_set_from(entries: Seq<LiteralSetDecl>, name: Seq<char>, scope: ScopeId, i: int) -> Option<Seq<Seq<char>>>
    decreases entries.len() - i,
{
    if i < 0 || i >= entries.len() {
        None
    } else if entries[i].name@ == name && entries[i].scope == scope {
        Some(entries[i].literals@.map_values(|s: String| s@))
    } else {
        literal_set_from(entries, name, scope, i + 1)
    }
}

/// The Rust name of the first renamed local from index `i` on named `name`.
pub open spec fn renamed_from(entries: Seq<RenamedLocal>, name: Seq<char>, i: int) -> Option<Seq<char>>
    decreases entries.len() - i,
{
    if i < 0 || i >= entries.len() {
        None
    } else if entries[i].name@ == name {
        Some(entries[i].rust_name@)
    } else {
        renamed_from(entries, name, i + 1)
    }
}

impl CodegenContext {
    /// The type that the alias `name` stands for in `scope`.
    pub open spec fn alias(self, name: Seq<char>, scope: ScopeId) -> Option<TypeRef> {
        alias_from(self.aliases@, name, scope, 0)
    }

    /// The literals of the string literal set `name` in `scope`.
    pub open spec fn literal_set(self, name: Seq<char>, scope: ScopeId) -> Option<Seq<Seq<char>>> {
        literal_set_from(self.string_literal_sets@, name, scope, 0)
    }

    /// The Rust name given to the local `name`.
    pub open spec fn renamed(self, name: Seq<char>) -> Option<Seq<char>> {
        renamed_from(self.renamed_locals@, name, 0)
    }

    /// The alias `name` declared in `scope`, if any.
    pub fn resolve_alias(&self, name: &String, scope: ScopeId) -> (res: Option<&TypeRef>)
        ensures
            match res {
                Some(t) => self.alias(name@, scope) == Some(*t),
                None => self.alias(name@, scope) is None,
            },
    {
        let mut i: usize = 0;
        while i < self.aliases.len()
            invariant
                i <= self.aliases@.len(),
                alias_from(self.aliases@, name@, scope, 0) == alias_from(self.aliases@, name@, scope, i as int),
            decreases self.aliases@.len() - i,
        {
            let entry = &self.aliases[i];
            if entry.name == *name && entry.scope == scope {
                return Some(&entry.target);
            }
            i = i + 1;
        }
        None
    }

    /// The string literal set `name` declared in `scope`, if any.
    pub fn resolve_string_literal_set(&self, name: &String, scope: ScopeId) -> (res: Option<&Vec<String>>)
        ensures
            match res {
                Some(v) => self.literal_set(name@, scope) == Some(v@.map_values(|s: String| s@)),
                None => self.literal_set(name@, scope) is None,
            },
    {
        let mut i: usize = 0;
        while i < self.string_literal_sets.len()
            invariant
                i <= self.string_literal_sets@.len(),
                literal_set_from(self.string_literal_sets@, name@, scope, 0) == literal_set_from(self.string_literal_sets@, name@, scope, i as int),
            decreases self.string_literal_sets@.len() - i,
        {
            let entry = &self.string_literal_sets[i];
            if entry.name == *name && entry.scope == scope {
                return Some(&entry.literals);
            }
            i = i + 1;
        }
        None
    }

    /// The Rust name of the local `name`, if it was renamed.
    pub fn renamed_local(&self, name: &String) -> (res: Option<&String>)
        ensures
            match res {
                Some(v) => self.renamed(name@) == Some(v@),
                None => self.renamed(name@) is None,
            },
    {
        let mut i: usize = 0;
        while i < self.renamed_locals.len()
            invariant
                i <= self.renamed_locals@.len(),
                renamed_from(self.renamed_locals@, name@, 0) == renamed_from(self.renamed_locals@, name@, i as int),
            decreases self.renamed_locals@.len() - i,
        {
            let entry = &self.renamed_locals[i];
            if entry.name == *name {
                return Some(&entry.rust_name);
            }
            i = i + 1;
        }
        None
    }
}

} // verus!
