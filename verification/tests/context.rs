use ahash::{HashMapExt, HashSetExt};
use xee::{
    Context, DefaultMode, DefaultValidation, ExcludeResultPrefix, ExcludeResultPrefixes, Name,
    Standard, StaticStandard, StringMap, StringSet,
};

const XSL: &str = "http://www.w3.org/1999/XSL/Transform";

fn map(entries: &[(&str, &str)]) -> StringMap {
    let mut m = StringMap::new();
    for (k, v) in entries {
        m.insert(k.to_string(), v.to_string());
    }
    m
}

fn set(items: &[&str]) -> StringSet {
    let mut s = StringSet::new();
    for i in items {
        s.insert(i.to_string());
    }
    s
}

fn no_standard() -> Standard {
    Standard {
        default_collation: None,
        default_mode: None,
        default_validation: None,
        exclude_result_prefixes: None,
        expand_text: None,
        extension_element_prefixes: None,
        version: None,
        xpath_default_namespace: None,
    }
}

fn pairs(items: &[(&str, &str)]) -> Vec<(String, String)> {
    items.iter().map(|(p, u)| (p.to_string(), u.to_string())).collect()
}

#[test]
fn empty_context_defaults() {
    let c = Context::empty();
    assert!(c.prefixes().is_empty());
    assert!(c.variable_names().is_empty());
    assert_eq!(
        c.default_collation(),
        &vec!["http://www.w3.org/2005/xpath-functions/collation/codepoint".to_string()]
    );
    assert_eq!(c.default_mode(), &DefaultMode::Unnamed);
    assert_eq!(c.default_validation(), DefaultValidation::Strip);
    assert!(!c.expand_text());
    assert_eq!(c.version().mantissa(), 30);
    assert_eq!(c.version().scale(), 1);
    assert_eq!(c.xpath_default_namespace(), "");
    assert!(c.excluded_namespaces().is_empty());
    assert!(c.extension_element_prefixes().is_empty());
    assert!(c.literal_result_element_prefixes().is_empty());
}

#[test]
fn new_context_has_the_given_prefixes() {
    let c = Context::new(map(&[("xsl", XSL), ("a", "urn:a")]));
    assert_eq!(c.prefixes(), &map(&[("xsl", XSL), ("a", "urn:a")]));
    assert_eq!(c.default_mode(), &DefaultMode::Unnamed);
}

#[test]
fn with_prefixes_adds_and_overrides() {
    let c = Context::new(map(&[("a", "urn:a"), ("b", "urn:b")]));
    let d = c.with_prefixes(&map(&[("b", "urn:b2"), ("c", "urn:c")]));
    assert_eq!(d.prefixes(), &map(&[("a", "urn:a"), ("b", "urn:b2"), ("c", "urn:c")]));
    // the context it was made from is unchanged
    assert_eq!(c.prefixes(), &map(&[("a", "urn:a"), ("b", "urn:b")]));
}

#[test]
fn with_prefixes_twice_is_with_their_union() {
    let c = Context::new(map(&[("a", "urn:a")]));
    let first = map(&[("b", "urn:b")]);
    let second = map(&[("b", "urn:b2"), ("c", "urn:c")]);
    let twice = c.with_prefixes(&first).with_prefixes(&second);
    let once = c.with_prefixes(&map(&[("b", "urn:b2"), ("c", "urn:c")]));
    assert_eq!(twice.prefixes(), once.prefixes());
}

#[test]
fn with_variable_name_adds_the_name() {
    let c = Context::empty();
    let n = Name::new("urn:v".to_string(), "x".to_string()).unwrap();
    let d = c.with_variable_name(&n);
    assert_eq!(d.variable_names(), &set(&["Q{urn:v}x"]));
    let e = d.with_variable_name(&n).with_variable_name(&Name::new(String::new(), "y".to_string()).unwrap());
    assert_eq!(e.variable_names(), &set(&["Q{urn:v}x", "Q{}y"]));
    assert!(c.variable_names().is_empty());
}

#[test]
fn name_with_a_brace_in_its_local_part_is_refused() {
    assert!(Name::new("urn:a".to_string(), "b}c".to_string()).is_none());
    assert!(Name::new("a}b".to_string(), "c".to_string()).is_some());
    let n = Name::new("a}b".to_string(), "c".to_string()).unwrap();
    assert_eq!(n.namespace(), "a}b");
    assert_eq!(n.local_name(), "c");
}

#[test]
fn distinct_variable_names_are_both_kept() {
    let first = Name::new("urn:a".to_string(), "b".to_string()).unwrap();
    let second = Name::new("urn:a:b".to_string(), String::new()).unwrap();
    let c = Context::empty().with_variable_name(&first).with_variable_name(&second);
    assert_eq!(c.variable_names().len(), 2);
    assert_eq!(c.variable_names(), &set(&["Q{urn:a}b", "Q{urn:a:b}"]));
}

#[test]
fn eqname_of_name() {
    let n = Name::new("http://example.com/ns".to_string(), "local".to_string()).unwrap();
    assert_eq!(n.eqname(), "Q{http://example.com/ns}local");
}

#[test]
fn with_static_standard_sets_xpath_default_namespace() {
    let c = Context::new(map(&[("a", "urn:a")]));
    let d = c.with_static_standard(
        &map(&[("b", "urn:b")]),
        StaticStandard { xpath_default_namespace: Some("urn:default".to_string()) },
    );
    assert_eq!(d.prefixes(), &map(&[("a", "urn:a"), ("b", "urn:b")]));
    assert_eq!(d.xpath_default_namespace(), "urn:default");
    let e = d.with_static_standard(&map(&[]), StaticStandard { xpath_default_namespace: None });
    assert_eq!(e.xpath_default_namespace(), "urn:default");
}

#[test]
fn with_standard_overrides_present_attributes() {
    let c = Context::empty();
    let s = Standard {
        default_collation: Some(vec!["urn:collation".to_string()]),
        default_mode: Some(DefaultMode::EQName(Name::new("urn:m".to_string(), "mode".to_string()).unwrap())),
        default_validation: Some(DefaultValidation::Preserve),
        expand_text: Some(true),
        version: Some(xee::Decimal::new(20, 1).unwrap()),
        xpath_default_namespace: Some("urn:x".to_string()),
        ..no_standard()
    };
    let d = c.with_standard(&map(&[("p", "urn:p")]), s);
    assert_eq!(d.default_collation(), &vec!["urn:collation".to_string()]);
    assert_eq!(
        d.default_mode(),
        &DefaultMode::EQName(Name::new("urn:m".to_string(), "mode".to_string()).unwrap())
    );
    assert_eq!(d.default_validation(), DefaultValidation::Preserve);
    assert!(d.expand_text());
    assert_eq!(d.version().mantissa(), 20);
    assert_eq!(d.xpath_default_namespace(), "urn:x");
    assert_eq!(d.prefixes(), &map(&[("p", "urn:p")]));
    // an element without attributes keeps them
    let e = d.with_standard(&map(&[]), no_standard());
    assert_eq!(e.default_collation(), d.default_collation());
    assert_eq!(e.default_mode(), d.default_mode());
    assert_eq!(e.default_validation(), DefaultValidation::Preserve);
    assert!(e.expand_text());
    assert_eq!(e.version(), d.version());
    assert_eq!(e.xpath_default_namespace(), "urn:x");
    assert_eq!(e.prefixes(), d.prefixes());
    assert_eq!(e.excluded_namespaces(), d.excluded_namespaces());
}

#[test]
fn exclude_result_prefixes_resolve_against_expanded_prefixes() {
    let c = Context::new(map(&[("a", "urn:a"), ("", "urn:default")]));
    let s = Standard {
        exclude_result_prefixes: Some(ExcludeResultPrefixes::Prefixes(vec![
            ExcludeResultPrefix::Prefix("b".to_string()),
            ExcludeResultPrefix::Default,
            ExcludeResultPrefix::Prefix("unbound".to_string()),
        ])),
        ..no_standard()
    };
    // b is declared on the element itself
    let d = c.with_standard(&map(&[("b", "urn:b")]), s);
    assert_eq!(d.excluded_namespaces(), &set(&["urn:b", "urn:default"]));
}

#[test]
fn exclude_result_prefixes_all_excludes_every_in_scope_namespace() {
    let c = Context::new(map(&[("a", "urn:a"), ("b", "urn:b")]));
    let s = Standard { exclude_result_prefixes: Some(ExcludeResultPrefixes::All), ..no_standard() };
    let d = c.with_standard(&map(&[("c", "urn:c")]), s);
    assert_eq!(d.excluded_namespaces(), &set(&["urn:a", "urn:b", "urn:c"]));
    assert!(d.without_literal_result_element().literal_result_element_namespaces().is_empty());
}

#[test]
fn excluded_namespaces_accumulate() {
    let c = Context::new(map(&[("a", "urn:a"), ("b", "urn:b")]));
    let d = c.with_standard(
        &map(&[]),
        Standard {
            exclude_result_prefixes: Some(ExcludeResultPrefixes::Prefixes(vec![
                ExcludeResultPrefix::Prefix("a".to_string()),
            ])),
            ..no_standard()
        },
    );
    let e = d.with_standard(
        &map(&[]),
        Standard {
            exclude_result_prefixes: Some(ExcludeResultPrefixes::Prefixes(vec![
                ExcludeResultPrefix::Prefix("b".to_string()),
            ])),
            ..no_standard()
        },
    );
    assert_eq!(e.excluded_namespaces(), &set(&["urn:a", "urn:b"]));
}

#[test]
fn extension_element_prefixes_are_excluded_and_accumulate() {
    let c = Context::new(map(&[("ext", "urn:ext"), ("f", "urn:f")]));
    let d = c.with_standard(
        &map(&[]),
        Standard { extension_element_prefixes: Some(vec!["ext".to_string()]), ..no_standard() },
    );
    assert_eq!(d.excluded_namespaces(), &set(&["urn:ext"]));
    assert_eq!(d.extension_element_prefixes(), &vec!["ext".to_string()]);
    let e = d.with_standard(
        &map(&[]),
        Standard {
            extension_element_prefixes: Some(vec!["f".to_string(), "nope".to_string()]),
            ..no_standard()
        },
    );
    assert_eq!(e.excluded_namespaces(), &set(&["urn:ext", "urn:f"]));
    assert_eq!(
        e.extension_element_prefixes(),
        &vec!["ext".to_string(), "f".to_string(), "nope".to_string()]
    );
}

#[test]
fn literal_result_element_namespaces_are_sorted_and_filtered() {
    let c = Context::new(map(&[
        ("xsl", XSL),
        ("z", "urn:z"),
        ("a", "urn:a"),
        ("", ""),
        ("m", "urn:m"),
        ("x", "urn:excluded"),
    ]));
    let c = c.with_standard(
        &map(&[]),
        Standard {
            exclude_result_prefixes: Some(ExcludeResultPrefixes::Prefixes(vec![
                ExcludeResultPrefix::Prefix("x".to_string()),
            ])),
            ..no_standard()
        },
    );
    assert_eq!(
        c.literal_result_element_namespaces(),
        pairs(&[("a", "urn:a"), ("m", "urn:m"), ("z", "urn:z")])
    );
}

#[test]
fn children_of_literal_result_element_declare_nothing_again() {
    let c = Context::new(map(&[("a", "urn:a"), ("b", "urn:b")]));
    let inner = c.with_literal_result_element();
    assert!(inner.literal_result_element_namespaces().is_empty());
    // a namespace declared on a child element, or rebound, is declared
    let child = inner.with_prefixes(&map(&[("c", "urn:c"), ("a", "urn:a2")]));
    assert_eq!(
        child.literal_result_element_namespaces(),
        pairs(&[("a", "urn:a2"), ("c", "urn:c")])
    );
    // a separate tree declares everything in scope again
    assert_eq!(
        child.without_literal_result_element().literal_result_element_namespaces(),
        pairs(&[("a", "urn:a2"), ("b", "urn:b"), ("c", "urn:c")])
    );
}

#[test]
fn namespaces_for_xpath() {
    let c = Context::new(map(&[("a", "urn:a")])).with_static_standard(
        &map(&[]),
        StaticStandard { xpath_default_namespace: Some("urn:d".to_string()) },
    );
    let n = c.namespaces();
    assert_eq!(n.namespaces, map(&[("a", "urn:a")]));
    assert_eq!(n.default_element_namespace, "urn:d");
    assert_eq!(n.default_function_namespace, "http://www.w3.org/2005/xpath-functions");
}

#[test]
fn parser_context_carries_namespaces_and_variables() {
    let c = Context::new(map(&[("a", "urn:a")]))
        .with_variable_name(&Name::new(String::new(), "v".to_string()).unwrap());
    let p = c.parser_context();
    assert_eq!(p.namespaces.namespaces, map(&[("a", "urn:a")]));
    assert_eq!(p.namespaces.default_element_namespace, "");
    assert_eq!(p.variable_names, set(&["Q{}v"]));
}

#[test]
fn clone_keeps_everything() {
    let c = Context::new(map(&[("a", "urn:a")]))
        .with_variable_name(&Name::new(String::new(), "v".to_string()).unwrap())
        .with_literal_result_element();
    let d = c.clone();
    assert_eq!(d.prefixes(), c.prefixes());
    assert_eq!(d.variable_names(), c.variable_names());
    assert_eq!(d.literal_result_element_prefixes(), c.literal_result_element_prefixes());
}

#[test]
fn extension_namespaces_are_not_declared_by_literal_result_elements() {
    let c = Context::new(map(&[("ext", "urn:ext"), ("a", "urn:a")]));
    let d = c.with_standard(
        &map(&[]),
        Standard { extension_element_prefixes: Some(vec!["ext".to_string()]), ..no_standard() },
    );
    assert_eq!(d.literal_result_element_namespaces(), pairs(&[("a", "urn:a")]));
}

#[test]
fn static_standard_acts_as_standard_with_only_xpath_default_namespace() {
    let c = Context::new(map(&[("a", "urn:a")]));
    let ns = map(&[("b", "urn:b")]);
    let s = c.with_static_standard(
        &ns,
        StaticStandard { xpath_default_namespace: Some("urn:d".to_string()) },
    );
    let t = c.with_standard(
        &ns,
        Standard { xpath_default_namespace: Some("urn:d".to_string()), ..no_standard() },
    );
    assert_eq!(s.prefixes(), t.prefixes());
    assert_eq!(s.xpath_default_namespace(), t.xpath_default_namespace());
    assert_eq!(s.excluded_namespaces(), t.excluded_namespaces());
    assert_eq!(s.extension_element_prefixes(), t.extension_element_prefixes());
}

#[test]
fn new_is_empty_with_prefixes() {
    let p = map(&[("a", "urn:a")]);
    let n = Context::new(p.clone());
    let e = Context::empty().with_prefixes(&p);
    assert_eq!(n.prefixes(), e.prefixes());
    assert_eq!(n.default_collation(), e.default_collation());
    assert_eq!(n.version(), e.version());
}

#[test]
fn child_of_literal_result_element_declares_only_new_bindings() {
    let c = Context::new(map(&[("a", "urn:a"), ("b", "urn:b")])).with_literal_result_element();
    let child = c.with_prefixes(&map(&[("b", "urn:b"), ("x", XSL), ("e", "")]));
    assert!(child.literal_result_element_namespaces().is_empty());
}

#[test]
fn unbound_extension_prefix_designates_nothing() {
    let c = Context::empty();
    let d = c.with_standard(
        &map(&[]),
        Standard {
            extension_element_prefixes: Some(vec!["nope".to_string()]),
            exclude_result_prefixes: Some(ExcludeResultPrefixes::Prefixes(vec![
                ExcludeResultPrefix::Default,
            ])),
            ..no_standard()
        },
    );
    assert!(d.excluded_namespaces().is_empty());
}
