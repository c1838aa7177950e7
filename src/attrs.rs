//! Scanning annotation lists for flags and string values.
use vstd::prelude::*;
use crate::syntax::{Annotation, Entry, Lit, StrLit};

verus! {

/// The entries of every annotation in `namespace`, in declaration order,
/// as if the lists were written one after another.
pub open spec fn scoped_entries(ns: Seq<char>, attrs: Seq<Annotation>) -> Seq<Entry>
    decreases attrs.len(),
{
    if attrs.len() == 0 {
        seq![]
    } else {
        let rest = scoped_entries(ns, attrs.drop_last());
        match attrs.last() {
            Annotation::List { namespace, entries } => if namespace@ == ns {
                rest + entries@
            } else {
                rest
            },
            _ => rest,
        }
    }
}

/// Whether `e` is the bare flag `name`.
pub open spec fn is_flag(e: Entry, name: Seq<char>) -> bool {
    match e {
        Entry::Flag(f) => f@ == name,
        _ => false,
    }
}

/// The string that `e` gives for `key`, with the literal's location, if it
/// is `key = "..."`.
pub open spec fn str_value(e: Entry, key: Seq<char>) -> Option<(Seq<char>, usize)> {
    match e {
        Entry::KeyValue { key: k, value: Lit::Str(s) } => if k@ == key {
            Some((s.value@, s.span))
        } else {
            None
        },
        _ => None,
    }
}

/// The string value of the first entry of `es` that is `key = "..."`.
pub open spec fn first_value(es: Seq<Entry>, key: Seq<char>) -> Option<(Seq<char>, usize)>
    decreases es.len(),
{
    if es.len() == 0 {
        None
    } else {
        match first_value(es.drop_last(), key) {
            Some(v) => Some(v),
            None => str_value(es.last(), key),
        }
    }
}

/// Whether some entry of namespace `ns` is the bare flag `name`.
pub open spec fn flag_set(ns: Seq<char>, attrs: Seq<Annotation>, name: Seq<char>) -> bool {
    exists|j: int|
        0 <= j < scoped_entries(ns, attrs).len() && is_flag(#[trigger] scoped_entries(ns, attrs)[j], name)
}

/// The string value of the first `key = "..."` entry of namespace `ns`, with
/// the literal's location.
pub open spec fn value_for(ns: Seq<char>, attrs: Seq<Annotation>, key: Seq<char>) -> Option<(Seq<char>, usize)> {
    first_value(scoped_entries(ns, attrs), key)
}

proof fn lemma_scoped_step(ns: Seq<char>, attrs: Seq<Annotation>, i: int)
    requires
        0 <= i < attrs.len(),
    ensures
        scoped_entries(ns, attrs.take(i + 1)) == match attrs[i] {
            Annotation::List { namespace, entries } => if namespace@ == ns {
                scoped_entries(ns, attrs.take(i)) + entries@
            } else {
                scoped_entries(ns, attrs.take(i))
            },
            _ => scoped_entries(ns, attrs.take(i)),
        },
{
    assert(attrs.take(i + 1).drop_last() == attrs.take(i));
}

/// Whether an annotation in namespace `prefix` holds the bare flag `name`.
/// Annotations that did not parse, and those of other namespaces, are skipped.
pub fn has_attribute(prefix: &str, attrs: &[Annotation], name: &str) -> (r: bool)
    ensures
        r == flag_set(prefix@, attrs@, name@),
{
    let ns = prefix.to_owned();
    let flag = name.to_owned();
    let n = attrs.len();
    let mut i: usize = 0;
    while i < n
        invariant
            n == attrs@.len(),
            0 <= i <= n,
            ns@ == prefix@,
            flag@ == name@,
            forall|j: int|
                0 <= j < scoped_entries(prefix@, attrs@.take(i as int)).len() ==> !is_flag(
                    #[trigger] scoped_entries(prefix@, attrs@.take(i as int))[j],
                    name@,
                ),
        decreases n - i,
    {
        proof {
            lemma_scoped_step(prefix@, attrs@, i as int);
        }
        let before = Ghost(scoped_entries(prefix@, attrs@.take(i as int)));
        match &attrs[i] {
            Annotation::List { namespace, entries } => {
                if *namespace == ns {
                    let m = entries.len();
                    let mut k: usize = 0;
                    while k < m
                        invariant
                            m == entries@.len(),
                            0 <= k <= m,
                            i < n,
                            ns@ == prefix@,
                            flag@ == name@,
                            n == attrs@.len(),
                            scoped_entries(prefix@, attrs@.take(i + 1)) == before@ + entries@,
                            forall|j: int| 0 <= j < k ==> !is_flag(#[trigger] entries@[j], name@),
                        decreases m - k,
                    {
                        match &entries[k] {
                            Entry::Flag(f) => {
                                if *f == flag {
                                    proof {
                                        let all = scoped_entries(prefix@, attrs@.take(i + 1));
                                        assert(all[before@.len() + k] == entries@[k as int]);
                                        assert(is_flag(all[before@.len() + k], name@));
                                        assert(flag_set(prefix@, attrs@.take(i + 1), name@));
                                        lemma_flag_set_extends(prefix@, attrs@, (i + 1) as int, name@);
                                    }
                                    return true;
                                }
                            },
                            _ => {},
                        }
                        k += 1;
                    }
                    proof {
                        let all = scoped_entries(prefix@, attrs@.take(i + 1));
                        assert forall|j: int| 0 <= j < all.len() implies !is_flag(#[trigger] all[j], name@) by {
                            if j >= before@.len() {
                                assert(all[j] == entries@[j - before@.len()]);
                            }
                        }
                    }
                }
            },
            _ => {},
        }
        i += 1;
    }
    assert(attrs@.take(n as int) == attrs@);
    false
}

/// A flag found in a prefix of the annotations is found in the whole list.
proof fn lemma_flag_set_extends(ns: Seq<char>, attrs: Seq<Annotation>, i: int, name: Seq<char>)
    requires
        0 <= i <= attrs.len(),
        flag_set(ns, attrs.take(i), name),
    ensures
        flag_set(ns, attrs, name),
    decreases attrs.len() - i,
{
    if i < attrs.len() {
        lemma_scoped_step(ns, attrs, i);
        let j = choose|j: int|
            0 <= j < scoped_entries(ns, attrs.take(i)).len() && is_flag(
                #[trigger] scoped_entries(ns, attrs.take(i))[j],
                name,
            );
        assert(scoped_entries(ns, attrs.take(i + 1))[j] == scoped_entries(ns, attrs.take(i))[j]);
        lemma_flag_set_extends(ns, attrs, i + 1, name);
    } else {
        assert(attrs.take(i) == attrs);
    }
}

/// Scanning two annotation lists one after the other sees the entries of
/// the first, then those of the second.
pub proof fn lemma_scoped_concat(ns: Seq<char>, s1: Seq<Annotation>, s2: Seq<Annotation>)
    ensures
        scoped_entries(ns, s1 + s2) == scoped_entries(ns, s1) + scoped_entries(ns, s2),
    decreases s2.len(),
{
    if s2.len() == 0 {
        assert(s1 + s2 == s1);
        assert(scoped_entries(ns, s1) + scoped_entries(ns, s2) == scoped_entries(ns, s1));
    } else {
        assert((s1 + s2).drop_last() == s1 + s2.drop_last());
        assert((s1 + s2).last() == s2.last());
        lemma_scoped_concat(ns, s1, s2.drop_last());
        let a = scoped_entries(ns, s1);
        let b = scoped_entries(ns, s2.drop_last());
        match s2.last() {
            Annotation::List { namespace, entries } => {
                if namespace@ == ns {
                    assert(a + b + entries@ == a + (b + entries@));
                }
            },
            _ => {},
        }
    }
}

/// The first string value in `a + b` is the first in `a`, or else the first in `b`.
pub proof fn lemma_first_value_concat(a: Seq<Entry>, b: Seq<Entry>, key: Seq<char>)
    ensures
        first_value(a + b, key) == match first_value(a, key) {
            Some(v) => Some(v),
            None => first_value(b, key),
        },
    decreases b.len(),
{
    if b.len() == 0 {
        assert(a + b == a);
    } else {
        assert((a + b).drop_last() == a + b.drop_last());
        assert((a + b).last() == b.last());
        lemma_first_value_concat(a, b.drop_last(), key);
    }
}

/// The first `key = "..."` literal of an annotation in namespace `prefix`,
/// with its contents and its location. Entries whose value is not a string literal are
/// skipped and the scan goes on; annotations that did not parse, and those
/// of other namespaces, are skipped.
pub fn attribute_value(prefix: &str, attrs: &[Annotation], name: &str) -> (r: Option<StrLit>)
    ensures
        match r {
            Some(lit) => value_for(prefix@, attrs@, name@) == Some((lit.value@, lit.span)),
            None => value_for(prefix@, attrs@, name@) is None,
        },
{
    let ns = prefix.to_owned();
    let wanted = name.to_owned();
    let n = attrs.len();
    let mut i: usize = 0;
    while i < n
        invariant
            n == attrs@.len(),
            0 <= i <= n,
            ns@ == prefix@,
            wanted@ == name@,
            first_value(scoped_entries(prefix@, attrs@.take(i as int)), name@) is None,
        decreases n - i,
    {
        proof {
            lemma_scoped_step(prefix@, attrs@, i as int);
        }
        let before = Ghost(scoped_entries(prefix@, attrs@.take(i as int)));
        match &attrs[i] {
            Annotation::List { namespace, entries } => {
                if *namespace == ns {
                    let m = entries.len();
                    let mut k: usize = 0;
                    while k < m
                        invariant
                            m == entries@.len(),
                            0 <= k <= m,
                            i < n,
                            n == attrs@.len(),
                            ns@ == prefix@,
                            wanted@ == name@,
                            scoped_entries(prefix@, attrs@.take(i + 1)) == before@ + entries@,
                            first_value(before@ + entries@.take(k as int), name@) is None,
                        decreases m - k,
                    {
                        proof {
                            assert((before@ + entries@.take(k + 1)).drop_last() == before@ + entries@.take(k as int));
                        }
                        match &entries[k] {
                            Entry::KeyValue { key, value: Lit::Str(s) } => {
                                if *key == wanted {
                                    proof {
                                        let found = before@ + entries@.take(k + 1);
                                        assert(first_value(found, name@) == Some((s.value@, s.span)));
                                        assert(found + entries@.skip(k + 1) == before@ + entries@);
                                        lemma_first_value_concat(found, entries@.skip(k + 1), name@);
                                        lemma_value_extends(prefix@, attrs@, i + 1, name@);
                                    }
                                    return Some(StrLit { value: s.value.clone(), span: s.span });
                                }
                            },
                            _ => {},
                        }
                        k += 1;
                    }
                    assert(entries@.take(m as int) == entries@);
                }
            },
            _ => {},
        }
        i += 1;
    }
    assert(attrs@.take(n as int) == attrs@);
    None
}

/// A string value found in a prefix of the annotations is the one found in the whole list.
proof fn lemma_value_extends(ns: Seq<char>, attrs: Seq<Annotation>, i: int, key: Seq<char>)
    requires
        0 <= i <= attrs.len(),
        first_value(scoped_entries(ns, attrs.take(i)), key) is Some,
    ensures
        value_for(ns, attrs, key) == first_value(scoped_entries(ns, attrs.take(i)), key),
{
    assert(attrs.take(i) + attrs.skip(i) == attrs);
    lemma_scoped_concat(ns, attrs.take(i), attrs.skip(i));
    lemma_first_value_concat(scoped_entries(ns, attrs.take(i)), scoped_entries(ns, attrs.skip(i)), key);
}

/// No flag is set when there are no annotations, whatever the namespace and name.
pub proof fn lemma_no_flag_without_annotations(ns: Seq<char>, name: Seq<char>)
    ensures
        !flag_set(ns, seq![], name),
{
    assert(scoped_entries(ns, seq![]).len() == 0);
}

/// No string value is found among entries that give none for `key`.
proof fn lemma_first_value_none(es: Seq<Entry>, key: Seq<char>)
    requires
        forall|j: int| 0 <= j < es.len() ==> str_value(#[trigger] es[j], key) is None,
    ensures
        first_value(es, key) is None,
    decreases es.len(),
{
    if es.len() > 0 {
        lemma_first_value_none(es.drop_last(), key);
    }
}

/// An annotation of the namespace whose entries give no string for `key`
/// (a `key = 3`, say) does not stop the scan: the value found is the one that
/// the annotations after it give, and none when they give none.
pub proof fn lemma_non_string_value_skipped(
    ns: Seq<char>,
    key: Seq<char>,
    a: Annotation,
    rest: Seq<Annotation>,
)
    requires
        a matches Annotation::List { namespace, entries } && namespace@ == ns && forall|j: int|
            0 <= j < entries@.len() ==> str_value(#[trigger] entries@[j], key) is None,
    ensures
        value_for(ns, seq![a] + rest, key) == value_for(ns, rest, key),
{
    lemma_scoped_concat(ns, seq![a], rest);
    let first = scoped_entries(ns, seq![a]);
    assert(seq![a].drop_last() == Seq::<Annotation>::empty());
    assert(scoped_entries(ns, Seq::<Annotation>::empty()) == Seq::<Entry>::empty());
    assert(seq![a].last() == a);
    if let Annotation::List { namespace, entries } = a {
        assert(first == Seq::<Entry>::empty() + entries@);
        assert(first == entries@);
    }
    lemma_first_value_none(first, key);
    lemma_first_value_concat(first, scoped_entries(ns, rest), key);
}

} // verus!
