use rspack_externals::externals::{
    DependencyKind, ExternalItem, ExternalItemFnResult, ExternalItemValue, ExternalModule,
    ExternalRequest, ExternalTypeEnum, ExternalsError, ExternalsPlugin, ModuleDependencyInfo,
    Resolution, split_type_prefix, value_keys_unique,
};
use rspack_externals::pattern::RequestPattern;

fn plugin(items: Vec<ExternalItem>) -> ExternalsPlugin {
    ExternalsPlugin::new("commonjs".to_string(), items)
}

fn dep(request: &str) -> ModuleDependencyInfo {
    ModuleDependencyInfo { request: request.to_string(), kind: DependencyKind::Other, attributes: None }
}

fn finished(r: Result<Resolution, ExternalsError>) -> Option<ExternalModule> {
    match r {
        Ok(Resolution::Finished(m)) => m,
        other => panic!("expected a finished resolution, got {:?}", other),
    }
}

fn single(m: &ExternalModule) -> (String, Option<Vec<String>>) {
    match &m.request {
        ExternalRequest::Single(v) => (v.primary.clone(), v.rest.clone()),
        other => panic!("expected a single request, got {:?}", other),
    }
}

#[test]
fn reject_stops_search_before_accepting_item() {
    let p = plugin(vec![ExternalItem::Bool(false), ExternalItem::String("foo".to_string())]);
    assert!(finished(p.factorize(&dep("foo"))).is_none());
}

#[test]
fn accepting_item_alone_makes_module_external() {
    let p = plugin(vec![ExternalItem::String("foo".to_string())]);
    let m = finished(p.factorize(&dep("foo"))).unwrap();
    assert_eq!(single(&m), ("foo".to_string(), None));
    assert_eq!(m.external_type, "commonjs");
    assert_eq!(m.user_request, "foo");
}

#[test]
fn no_matching_item_defers() {
    let p = plugin(vec![ExternalItem::String("foo".to_string())]);
    assert!(finished(p.factorize(&dep("bar"))).is_none());
    let empty = plugin(vec![]);
    assert!(finished(empty.factorize(&dep("bar"))).is_none());
}

#[test]
fn parse_type_prefix_with_hyphen() {
    let p = plugin(vec![]);
    let (value, ty) = p.parse_external_type("node-commonjs my-lib");
    assert_eq!(value, "my-lib");
    assert_eq!(ty, "node-commonjs");
}

#[test]
fn capital_letters_are_not_a_prefix() {
    let p = plugin(vec![]);
    let (value, ty) = p.parse_external_type("My Lib");
    assert_eq!(value, "My Lib");
    assert_eq!(ty, "commonjs");
}

#[test]
fn prefix_needs_a_space_after_the_tag() {
    let p = plugin(vec![]);
    assert_eq!(p.parse_external_type("lodash"), ("lodash".to_string(), "commonjs".to_string()));
    assert_eq!(p.parse_external_type(""), (String::new(), "commonjs".to_string()));
    assert_eq!(p.parse_external_type(" x"), (" x".to_string(), "commonjs".to_string()));
}

#[test]
fn split_type_prefix_cuts_at_first_space() {
    assert_eq!(
        split_type_prefix("amd a b", true),
        Some(("amd".to_string(), "a b".to_string()))
    );
    assert_eq!(split_type_prefix("amd a b", false), None);
    assert_eq!(split_type_prefix("amd", true), None);
}

#[test]
fn value_list_prefix_on_primary_only() {
    let p = plugin(vec![]);
    let value = ExternalItemValue::Array(vec!["amd foo".to_string(), "bar".to_string(), "baz".to_string()]);
    let m = p.handle_external(&value, None, &dep("x")).unwrap().unwrap();
    assert_eq!(single(&m), ("foo".to_string(), Some(vec!["bar".to_string(), "baz".to_string()])));
    assert_eq!(m.external_type, "amd");

    let value = ExternalItemValue::Array(vec!["amd foo".to_string(), "amd bar".to_string()]);
    let m = p.handle_external(&value, None, &dep("x")).unwrap().unwrap();
    assert_eq!(single(&m), ("foo".to_string(), Some(vec!["amd bar".to_string()])));
}

#[test]
fn single_entry_list_has_no_fallback_and_empty_list_yields_nothing() {
    let p = plugin(vec![]);
    let one = ExternalItemValue::Array(vec!["react".to_string()]);
    let m = p.handle_external(&one, None, &dep("x")).unwrap().unwrap();
    assert_eq!(single(&m), ("react".to_string(), None));
    let none = ExternalItemValue::Array(vec![]);
    assert!(p.handle_external(&none, None, &dep("x")).unwrap().is_none());
}

#[test]
fn true_flag_uses_request_verbatim() {
    let p = plugin(vec![]);
    let m = p.handle_external(&ExternalItemValue::Bool(true), None, &dep("lodash")).unwrap().unwrap();
    assert_eq!(single(&m), ("lodash".to_string(), None));
    assert_eq!(m.external_type, "commonjs");
    let m = p.handle_external(&ExternalItemValue::Bool(true), None, &dep("amd lodash")).unwrap().unwrap();
    assert_eq!(single(&m), ("amd lodash".to_string(), None));
    assert_eq!(m.external_type, "commonjs");
    assert!(p.handle_external(&ExternalItemValue::Bool(false), None, &dep("lodash")).unwrap().is_none());
}

#[test]
fn object_value_builds_table_without_prefix_parsing() {
    let p = plugin(vec![]);
    let value = ExternalItemValue::Object(vec![
        ("root".to_string(), vec!["amd React".to_string()]),
        ("commonjs".to_string(), vec!["react".to_string(), "x".to_string()]),
    ]);
    let m = p.handle_external(&value, None, &dep("react")).unwrap().unwrap();
    assert_eq!(m.external_type, "commonjs");
    match &m.request {
        ExternalRequest::Table(t) => {
            assert_eq!(t.len(), 2);
            assert_eq!(t[0].0, "root");
            assert_eq!(t[0].1.primary, "amd React");
            assert!(t[0].1.rest.is_none());
            assert_eq!(t[1].1.primary, "react");
            assert_eq!(t[1].1.rest, Some(vec!["x".to_string()]));
        }
        other => panic!("expected a table, got {:?}", other),
    }
}

#[test]
fn object_value_with_empty_list_is_an_error() {
    let p = plugin(vec![]);
    let value = ExternalItemValue::Object(vec![("root".to_string(), vec![])]);
    assert_eq!(p.handle_external(&value, None, &dep("react")).unwrap_err(), ExternalsError::EmptyValueList);
}

#[test]
fn type_override_replaces_prefix_type() {
    let p = plugin(vec![]);
    let value = ExternalItemValue::String("amd foo".to_string());
    let m = p.handle_external(&value, Some("module".to_string()), &dep("x")).unwrap().unwrap();
    assert_eq!(single(&m), ("foo".to_string(), None));
    assert_eq!(m.external_type, "module");
}

#[test]
fn dependency_kind_sets_hint_and_attributes_are_kept() {
    let p = plugin(vec![ExternalItem::String("a".to_string())]);
    let mut d = dep("a");
    d.kind = DependencyKind::Import;
    d.attributes = Some(vec![("type".to_string(), "json".to_string())]);
    let m = finished(p.factorize(&d)).unwrap();
    assert_eq!(m.dependency_meta.external_type, Some(ExternalTypeEnum::Import));
    assert_eq!(m.dependency_meta.attributes, Some(vec![("type".to_string(), "json".to_string())]));
    d.kind = DependencyKind::EsmImportSideEffect;
    let m = finished(p.factorize(&d)).unwrap();
    assert_eq!(m.dependency_meta.external_type, Some(ExternalTypeEnum::Module));
    d.kind = DependencyKind::Other;
    let m = finished(p.factorize(&d)).unwrap();
    assert_eq!(m.dependency_meta.external_type, None);
}

#[test]
fn regexp_item_matches_request() {
    let re = RequestPattern::new("^lod").unwrap();
    let p = plugin(vec![ExternalItem::RegExp(re)]);
    let m = finished(p.factorize(&dep("lodash"))).unwrap();
    assert_eq!(single(&m), ("lodash".to_string(), None));
    assert!(finished(p.factorize(&dep("react"))).is_none());
}

#[test]
fn invalid_pattern_is_rejected() {
    let e = RequestPattern::new("foo(bar").err().unwrap();
    assert_eq!(e.source, "foo(bar");
}

#[test]
fn object_item_looks_up_request() {
    let p = plugin(vec![ExternalItem::Object(vec![
        ("react".to_string(), ExternalItemValue::String("var React".to_string())),
    ])]);
    let m = finished(p.factorize(&dep("react"))).unwrap();
    assert_eq!(single(&m), ("React".to_string(), None));
    assert_eq!(m.external_type, "var");
    assert!(finished(p.factorize(&dep("vue"))).is_none());
}

#[test]
fn resolver_is_asked_and_no_opinion_moves_on() {
    let p = plugin(vec![ExternalItem::Fn(7), ExternalItem::String("foo".to_string())]);
    let d = dep("foo");
    match p.factorize(&d) {
        Ok(Resolution::CallResolver { index, resolver }) => {
            assert_eq!(index, 0);
            assert_eq!(resolver, 7);
        }
        other => panic!("expected a resolver call, got {:?}", other),
    }
    let no_opinion = ExternalItemFnResult { result: None, external_type: None };
    let m = finished(p.resume(0, no_opinion, &d)).unwrap();
    assert_eq!(single(&m), ("foo".to_string(), None));

    let answer = ExternalItemFnResult {
        result: Some(ExternalItemValue::String("amd bar".to_string())),
        external_type: Some("umd".to_string()),
    };
    let m = finished(p.resume(0, answer, &d)).unwrap();
    assert_eq!(single(&m), ("bar".to_string(), None));
    assert_eq!(m.external_type, "umd");
}

#[test]
fn plugin_name() {
    assert_eq!(plugin(vec![]).name(), "rspack.ExternalsPlugin");
}

#[test]
fn value_keys_unique_detects_repeated_key() {
    let dup = ExternalItemValue::Object(vec![
        ("root".to_string(), vec!["a".to_string()]),
        ("root".to_string(), vec!["b".to_string()]),
    ]);
    assert!(!value_keys_unique(&dup));
    let ok = ExternalItemValue::Object(vec![
        ("root".to_string(), vec!["a".to_string()]),
        ("amd".to_string(), vec!["b".to_string()]),
    ]);
    assert!(value_keys_unique(&ok));
    assert!(value_keys_unique(&ExternalItemValue::Bool(true)));
}

#[test]
fn prefix_value_may_be_empty_or_hold_spaces() {
    let p = plugin(vec![]);
    assert_eq!(p.parse_external_type("var "), (String::new(), "var".to_string()));
    assert_eq!(p.parse_external_type("var a b"), ("a b".to_string(), "var".to_string()));
    assert_eq!(p.parse_external_type("var_x a"), ("var_x a".to_string(), "commonjs".to_string()));
}
