//! The syntax model of a type definition that the analyses read.
//!
//! A source handle (`usize`) stands for a source location that the caller
//! keeps; the library threads it through unchanged.
use vstd::prelude::*;

verus! {

/// A string literal: its contents, and where it was written.
#[derive(Clone, Debug, PartialEq, Eq)]
pub struct StrLit {
    pub value: String,
    pub span: usize,
}

/// A literal that stands as the value of a `key = literal` entry.
#[derive(Clone, Debug, PartialEq, Eq)]
pub enum Lit {
    Str(StrLit),
    /// Any other literal, by its source text.
    Other(String),
}

/// One entry inside `namespace(...)`.
#[derive(Clone, Debug, PartialEq, Eq)]
pub enum Entry {
    /// A bare identifier.
    Flag(String),
    /// `key = literal`.
    KeyValue { key: String, value: Lit },
    /// Anything else (a nested list, a lone literal).
    Other,
}

/// An annotation attached to an item or a field, as the front end parsed it.
#[derive(Clone, Debug, PartialEq, Eq)]
pub enum Annotation {
    /// Its tokens did not parse as an annotation.
    Malformed,
    /// `namespace(entry, entry, ...)`.
    List { namespace: String, entries: Vec<Entry> },
    /// A well-formed annotation of another form (`name` or `name = literal`).
    Other,
}

/// An identifier with the source location it was written at.
#[derive(Clone, Debug, PartialEq, Eq)]
pub struct Ident {
    pub name: String,
    pub span: usize,
}

/// One field of a struct or of an enum variant.
#[derive(Clone, Debug, PartialEq, Eq)]
pub struct Field {
    /// The declared name; present exactly when the fields are named.
    pub ident: Option<String>,
    /// The declared type, by its source text.
    pub ty: String,
    pub attrs: Vec<Annotation>,
    pub span: usize,
}

/// The fields of a struct or variant, in declaration order.
#[derive(Clone, Debug, PartialEq, Eq)]
pub enum Fields {
    Named(Vec<Field>),
    Unnamed(Vec<Field>),
    Unit,
}

#[derive(Clone, Debug, PartialEq, Eq)]
pub struct Variant {
    pub ident: Ident,
    pub fields: Fields,
}

/// The body of a type definition.
#[derive(Clone, Debug, PartialEq, Eq)]
pub enum Data {
    Struct(Fields),
    Enum(Vec<Variant>),
    Union(Vec<Field>),
}

impl Fields {
    /// Whether the fields meet `wf`.
    pub fn is_wf(&self) -> (r: bool)
        ensures
            r == self.wf(),
    {
        match self {
            Fields::Named(fs) => {
                let mut i: usize = 0;
                while i < fs.len()
                    invariant
                        0 <= i <= fs@.len(),
                        *self == Fields::Named(*fs),
                        forall|j: int| 0 <= j < i ==> (#[trigger] fs@[j]).ident.is_some(),
                    decreases fs@.len() - i,
                {
                    if fs[i].ident.is_none() {
                        assert(fs[i as int].ident.is_none());
                        return false;
                    }
                    i += 1;
                }
                true
            },
            Fields::Unnamed(fs) => {
                let mut i: usize = 0;
                while i < fs.len()
                    invariant
                        0 <= i <= fs@.len(),
                        *self == Fields::Unnamed(*fs),
                        forall|j: int| 0 <= j < i ==> (#[trigger] fs@[j]).ident.is_none(),
                    decreases fs@.len() - i,
                {
                    if fs[i].ident.is_some() {
                        assert(fs[i as int].ident.is_some());
                        return false;
                    }
                    i += 1;
                }
                true
            },
            Fields::Unit => true,
        }
    }

    /// Named fields all carry a name; positional fields carry none.
    pub open spec fn wf(&self) -> bool {
        match self {
            Fields::Named(fs) => forall|i: int| 0 <= i < fs.len() ==> (#[trigger] fs[i]).ident.is_some(),
            Fields::Unnamed(fs) => forall|i: int| 0 <= i < fs.len() ==> (#[trigger] fs[i]).ident.is_none(),
            Fields::Unit => true,
        }
    }
}

} // verus!
