//! The intermediate representation of TypeScript declarations that record
//! generation reads.
use vstd::prelude::*;

verus! {

/// A lexical scope of the parsed declarations, used to resolve names.
#[derive(Clone, Copy, PartialEq, Eq, Structural, Debug)]
pub struct ScopeId(pub u32);

impl ScopeId {
    /// A scope that holds no declarations.
    pub fn dummy() -> (res: ScopeId)
        ensures
            res.0 == 0,
    {
        ScopeId(0)
    }
}

/// A TypeScript type as the parser records it.
///
/// A number literal carries the bit pattern of its IEEE-754 value.
#[derive(Debug)]
pub enum TypeRef {
    Any,
    Unknown,
    String,
    Number,
    Boolean,
    BigInt,
    Undefined,
    Null,
    Void,
    Object,
    Function,
    StringLiteral(String),
    NumberLiteral(u64),
    BooleanLiteral(bool),
    Array(Box<TypeRef>),
    Nullable(Box<TypeRef>),
    Union(Vec<TypeRef>),
    Tuple(Vec<TypeRef>),
    Reference { segments: Vec<String>, generic_args: Vec<TypeRef> },
}

/// The name a type reference stands for, when it is a plain identifier:
/// one path segment and no generic arguments.
pub open spec fn ident_name(ty: TypeRef) -> Option<Seq<char>> {
    match ty {
        TypeRef::Reference { segments, generic_args } => if segments@.len() == 1
            && generic_args@.len() == 0 {
            Some(segments@[0]@)
        } else {
            None
        },
        _ => None,
    }
}

impl TypeRef {
    /// The identifier this type names, if it is a plain identifier.
    pub fn as_ident(&self) -> (res: Option<&String>)
        ensures
            match res {
                Some(name) => ident_name(*self) == Some(name@),
                None => ident_name(*self) is None,
            },
    {
        match self {
            TypeRef::Reference { segments, generic_args } => {
                if segments.len() == 1 && generic_args.len() == 0 {
                    Some(&segments[0])
                } else {
                    None
                }
            },
            _ => None,
        }
    }
}

/// A generic parameter of a declaration.
#[derive(Debug)]
pub struct TypeParam {
    pub name: String,
}

/// A named `Record<K, V>` alias.
#[derive(Debug)]
pub struct RecordDecl {
    pub name: String,
    pub type_params: Vec<TypeParam>,
    pub key_type: TypeRef,
    pub value_type: TypeRef,
    pub body_scope: ScopeId,
}

/// Where the declaration comes from: the global scope or a module specifier.
#[derive(Debug)]
pub enum ModuleContext {
    Global,
    Module(String),
}

} // verus!
