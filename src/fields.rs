//! Field extraction and the uniform reference scheme for fields.
use vstd::prelude::*;
use crate::syntax::{Data, Field, Fields, Variant};

verus! {

/// How generated code refers to one field of a value.
#[derive(Clone, Debug, PartialEq, Eq)]
pub enum Member {
    /// By the field's name, at the field's source location.
    Named(String, usize),
    /// By the field's zero-based position, at the field's source location.
    Index(usize, usize),
}

/// The plain view of a `Member`: the name's characters, or the position.
pub enum MemberView {
    Named(Seq<char>, usize),
    Index(usize, usize),
}

impl View for Member {
    type V = MemberView;

    open spec fn view(&self) -> MemberView {
        match self {
            Member::Named(n, s) => MemberView::Named(n@, *s),
            Member::Index(i, s) => MemberView::Index(*i, *s),
        }
    }
}

/// The reference that generated code uses for field `i` of `fields`.
pub open spec fn member_of(fields: Fields, i: int) -> MemberView {
    match fields {
        Fields::Named(fs) => MemberView::Named(fs[i].ident.unwrap()@, fs[i].span),
        _ => MemberView::Index(i as usize, fields_seq(fields)[i].span),
    }
}

/// The fields in declaration order, whatever their shape.
pub open spec fn fields_seq(fields: Fields) -> Seq<Field> {
    match fields {
        Fields::Named(fs) => fs@,
        Fields::Unnamed(fs) => fs@,
        Fields::Unit => seq![],
    }
}

/// The named fields of a struct, in declaration order; `None` for a struct
/// with positional fields or none, and for an enum or a union.
pub fn struct_fields(data: &Data) -> (r: Option<&Vec<Field>>)
    ensures
        match data {
            Data::Struct(Fields::Named(fs)) => r is Some && r.unwrap()@ == fs@,
            _ => r is None,
        },
{
    match data {
        Data::Struct(fields) => match fields {
            Fields::Named(fs) => Some(fs),
            Fields::Unnamed(_) => None,
            Fields::Unit => None,
        },
        Data::Enum(_) | Data::Union(_) => None,
    }
}

/// Pairs each field with the reference generated code uses for it: its name
/// for named fields, its position for positional ones. Order is kept.
pub fn normalized_fields(fields: &Fields) -> (r: Vec<(Member, &Field)>)
    requires
        fields.wf(),
    ensures
        r@.len() == fields_seq(*fields).len(),
        forall|i: int|
            0 <= i < r@.len() ==> (#[trigger] r@[i]).0@ == member_of(*fields, i) && *r@[i].1
                == fields_seq(*fields)[i],
{
    let mut ret: Vec<(Member, &Field)> = Vec::new();
    match fields {
        Fields::Named(fs) => {
            let n = fs.len();
            let mut i: usize = 0;
            while i < n
                invariant
                    n == fs@.len(),
                    0 <= i <= n,
                    fields.wf(),
                    *fields == Fields::Named(*fs),
                    ret@.len() == i,
                    forall|j: int|
                        0 <= j < i ==> (#[trigger] ret@[j]).0@ == member_of(*fields, j) && *ret@[j].1
                            == fs@[j],
                decreases n - i,
            {
                let f = &fs[i];
                assert(f.ident.is_some());
                let name = match &f.ident {
                    Some(id) => id.clone(),
                    None => String::new(),
                };
                ret.push((Member::Named(name, f.span), f));
                i += 1;
            }
        },
        Fields::Unnamed(fs) => {
            let n = fs.len();
            let mut i: usize = 0;
            while i < n
                invariant
                    n == fs@.len(),
                    0 <= i <= n,
                    *fields == Fields::Unnamed(*fs),
                    ret@.len() == i,
                    forall|j: int|
                        0 <= j < i ==> (#[trigger] ret@[j]).0@ == member_of(*fields, j) && *ret@[j].1
                            == fs@[j],
                decreases n - i,
            {
                let f = &fs[i];
                ret.push((Member::Index(i, f.span), f));
                i += 1;
            }
        },
        Fields::Unit => {},
    }
    ret
}

/// Whether the variant's fields are positional.
pub fn is_fields_variant_unnamed(variant: &Variant) -> (r: bool)
    ensures
        r == variant.fields is Unnamed,
{
    match variant.fields {
        Fields::Named(_) => false,
        Fields::Unnamed(_) => true,
        Fields::Unit => false,
    }
}

} // verus!
