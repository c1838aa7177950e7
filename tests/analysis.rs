use derive_support::arms::{normalized_variant_match_cause, Delimiter, Token};
use derive_support::attrs::{attribute_value, has_attribute};
use derive_support::fields::{is_fields_variant_unnamed, normalized_fields, struct_fields, Member};
use derive_support::syntax::{Annotation, Data, Entry, Field, Fields, Ident, Lit, StrLit, Variant};

fn list(ns: &str, entries: Vec<Entry>) -> Annotation {
    Annotation::List { namespace: ns.to_string(), entries }
}

fn flag(name: &str) -> Entry {
    Entry::Flag(name.to_string())
}

fn kv(key: &str, value: &str) -> Entry {
    kv_at(key, value, 0)
}

fn kv_at(key: &str, value: &str, span: usize) -> Entry {
    Entry::KeyValue { key: key.to_string(), value: Lit::Str(StrLit { value: value.to_string(), span }) }
}

fn value_of(ns: &str, attrs: &[Annotation], key: &str) -> Option<String> {
    attribute_value(ns, attrs, key).map(|lit| lit.value)
}

fn kv_other(key: &str, text: &str) -> Entry {
    Entry::KeyValue { key: key.to_string(), value: Lit::Other(text.to_string()) }
}

fn named(name: &str, span: usize) -> Field {
    Field { ident: Some(name.to_string()), ty: "i32".to_string(), attrs: vec![], span }
}

fn unnamed(span: usize) -> Field {
    Field { ident: None, ty: "i32".to_string(), attrs: vec![], span }
}

fn ident(name: &str, span: usize) -> Ident {
    Ident { name: name.to_string(), span }
}

/// Renders tokens as text, one space between tokens, joined punctuation kept together.
fn render(tokens: &[Token]) -> String {
    let mut out = String::new();
    for t in tokens {
        match t {
            Token::Ident(s, _) => { out.push_str(s); out.push(' '); }
            Token::Punct(c, joint) => { out.push(*c); if !joint { out.push(' '); } }
            Token::Open(Delimiter::Parenthesis) => out.push_str("( "),
            Token::Open(Delimiter::Brace) => out.push_str("{ "),
            Token::Close(Delimiter::Parenthesis) => out.push_str(") "),
            Token::Close(Delimiter::Brace) => out.push_str("} "),
            Token::Body => out.push_str("body "),
        }
    }
    out.trim_end().to_string()
}

fn sample_enum() -> (Variant, Variant, Variant) {
    let a = Variant { ident: ident("A", 1), fields: Fields::Unnamed(vec![unnamed(10), unnamed(11)]) };
    let b = Variant { ident: ident("B", 2), fields: Fields::Named(vec![named("x", 20)]) };
    let c = Variant { ident: ident("C", 3), fields: Fields::Unit };
    (a, b, c)
}

#[test]
fn struct_fields_returns_named_fields_in_order() {
    let data = Data::Struct(Fields::Named(vec![named("a", 1), named("b", 2), named("c", 3)]));
    let fs = struct_fields(&data).expect("named struct has fields");
    let names: Vec<_> = fs.iter().map(|f| f.ident.clone().unwrap()).collect();
    assert_eq!(names, vec!["a", "b", "c"]);
    assert_eq!(fs.iter().map(|f| f.span).collect::<Vec<_>>(), vec![1, 2, 3]);
}

#[test]
fn struct_fields_absent_for_other_shapes() {
    assert!(struct_fields(&Data::Struct(Fields::Unnamed(vec![unnamed(1)]))).is_none());
    assert!(struct_fields(&Data::Struct(Fields::Unit)).is_none());
    let (a, _, _) = sample_enum();
    assert!(struct_fields(&Data::Enum(vec![a])).is_none());
    assert!(struct_fields(&Data::Union(vec![named("u", 1)])).is_none());
}

#[test]
fn struct_fields_empty_named_struct() {
    let data = Data::Struct(Fields::Named(vec![]));
    assert_eq!(struct_fields(&data).map(|v| v.len()), Some(0));
}

#[test]
fn no_flag_in_empty_annotation_list() {
    assert!(!has_attribute("ns", &[], "skip"));
    assert!(!has_attribute("", &[], ""));
}

#[test]
fn flag_found_in_namespace() {
    let attrs = vec![list("ns", vec![kv("key", "v"), flag("skip")])];
    assert!(has_attribute("ns", &attrs, "skip"));
    assert!(!has_attribute("ns", &attrs, "key"));
    assert!(!has_attribute("other", &attrs, "skip"));
}

#[test]
fn flag_skips_malformed_and_other_annotations() {
    let attrs = vec![
        Annotation::Malformed,
        Annotation::Other,
        list("other", vec![flag("skip")]),
        list("ns", vec![Entry::Other, flag("skip")]),
    ];
    assert!(has_attribute("ns", &attrs, "skip"));
    assert!(!has_attribute("ns", &attrs[..3], "skip"));
}

#[test]
fn first_value_wins() {
    let attrs = vec![list("ns1", vec![kv("key", "first")]), list("ns1", vec![kv("key", "second")])];
    assert_eq!(value_of("ns1", &attrs, "key"), Some("first".to_string()));
}

#[test]
fn value_absent_when_not_a_string() {
    let attrs = vec![list("ns", vec![kv_other("key", "3")])];
    assert_eq!(value_of("ns", &attrs, "key"), None);
}

#[test]
fn non_string_value_is_skipped_and_scan_goes_on() {
    let attrs = vec![list("ns", vec![kv_other("key", "3")]), list("ns", vec![kv("key", "later")])];
    assert_eq!(value_of("ns", &attrs, "key"), Some("later".to_string()));
}

#[test]
fn value_ignores_other_namespaces_and_keys() {
    let attrs = vec![
        Annotation::Malformed,
        list("other", vec![kv("key", "no")]),
        list("ns", vec![flag("key"), kv("name", "no"), kv("key", "yes")]),
    ];
    assert_eq!(value_of("ns", &attrs, "key"), Some("yes".to_string()));
    assert_eq!(value_of("ns", &[], "key"), None);
}

#[test]
fn positional_query_per_variant() {
    let (a, b, c) = sample_enum();
    assert!(is_fields_variant_unnamed(&a));
    assert!(!is_fields_variant_unnamed(&b));
    assert!(!is_fields_variant_unnamed(&c));
}

#[test]
fn match_arm_positional() {
    let (a, _, _) = sample_enum();
    let arm = normalized_variant_match_cause(&ident("E", 0), &a);
    assert_eq!(render(&arm), "E :: A ( v0 , v1 , ) => { let variant = ( v0 , v1 , ) ; body } ,");
    assert!(arm.contains(&Token::Ident("v1".to_string(), Some(11))));
}

#[test]
fn match_arm_named() {
    let (_, b, _) = sample_enum();
    let arm = normalized_variant_match_cause(&ident("E", 0), &b);
    assert_eq!(render(&arm), "E :: B { x } => { body } ,");
    let two = Variant { ident: ident("D", 4), fields: Fields::Named(vec![named("x", 1), named("y", 2)]) };
    assert_eq!(render(&normalized_variant_match_cause(&ident("E", 0), &two)), "E :: D { x , y } => { body } ,");
}

#[test]
fn match_arm_unit() {
    let (_, _, c) = sample_enum();
    let arm = normalized_variant_match_cause(&ident("E", 0), &c);
    assert_eq!(render(&arm), "E :: C => { body } ,");
    assert_eq!(arm[0], Token::Ident("E".to_string(), Some(0)));
    assert_eq!(arm[3], Token::Ident("C".to_string(), Some(3)));
}

#[test]
fn match_arm_binding_names_past_ten() {
    let fields: Vec<Field> = (0..12).map(unnamed).collect();
    let v = Variant { ident: ident("W", 0), fields: Fields::Unnamed(fields) };
    let arm = normalized_variant_match_cause(&ident("E", 0), &v);
    assert!(arm.contains(&Token::Ident("v10".to_string(), Some(10))));
    assert!(arm.contains(&Token::Ident("v11".to_string(), Some(11))));
}

#[test]
fn normalize_positional_fields() {
    let fields = Fields::Unnamed(vec![unnamed(7), unnamed(8), unnamed(9)]);
    let pairs = normalized_fields(&fields);
    let members: Vec<_> = pairs.iter().map(|(m, _)| m.clone()).collect();
    assert_eq!(members, vec![Member::Index(0, 7), Member::Index(1, 8), Member::Index(2, 9)]);
    assert_eq!(pairs.iter().map(|(_, f)| f.span).collect::<Vec<_>>(), vec![7, 8, 9]);
}

#[test]
fn normalize_named_fields() {
    let fields = Fields::Named(vec![named("a", 1), named("b", 2)]);
    let pairs = normalized_fields(&fields);
    let members: Vec<_> = pairs.iter().map(|(m, _)| m.clone()).collect();
    assert_eq!(members, vec![Member::Named("a".to_string(), 1), Member::Named("b".to_string(), 2)]);
}

#[test]
fn normalize_empty() {
    assert!(normalized_fields(&Fields::Unit).is_empty());
    assert!(normalized_fields(&Fields::Unnamed(vec![])).is_empty());
}

#[test]
fn repeated_runs_give_identical_output() {
    let (a, b, _) = sample_enum();
    let e = ident("E", 0);
    assert_eq!(normalized_variant_match_cause(&e, &a), normalized_variant_match_cause(&e, &a));
    assert_eq!(normalized_variant_match_cause(&e, &b), normalized_variant_match_cause(&e, &b));
    let attrs = vec![list("ns", vec![kv("key", "v"), flag("f")])];
    assert_eq!(value_of("ns", &attrs, "key"), value_of("ns", &attrs, "key"));
    assert_eq!(has_attribute("ns", &attrs, "f"), has_attribute("ns", &attrs, "f"));
    let fields = Fields::Named(vec![named("a", 1)]);
    let m1: Vec<_> = normalized_fields(&fields).into_iter().map(|(m, _)| m).collect();
    let m2: Vec<_> = normalized_fields(&fields).into_iter().map(|(m, _)| m).collect();
    assert_eq!(m1, m2);
}

#[test]
fn value_keeps_location_of_its_literal() {
    let attrs = vec![
        list("ns", vec![kv_other("key", "3"), kv_at("key", "a", 5)]),
        list("ns", vec![kv_at("key", "b", 6)]),
    ];
    assert_eq!(attribute_value("ns", &attrs, "key"), Some(StrLit { value: "a".to_string(), span: 5 }));
}

#[test]
fn fields_shape_check() {
    assert!(Fields::Named(vec![named("a", 1)]).is_wf());
    assert!(!Fields::Named(vec![named("a", 1), unnamed(2)]).is_wf());
    assert!(Fields::Unnamed(vec![unnamed(1)]).is_wf());
    assert!(!Fields::Unnamed(vec![unnamed(1), named("b", 2)]).is_wf());
    assert!(Fields::Unit.is_wf());
}
