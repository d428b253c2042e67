use rspack_externals::require_dependency::{
    replace_range, CommonJsFullRequireDependency, DependencyCategory, DependencyRange, DependencyType,
    ExportsType, UsedAccess,
};

fn dependency(names: &[&str], is_call: bool, asi_safe: bool, start: u32, end: u32) -> CommonJsFullRequireDependency {
    CommonJsFullRequireDependency::new(
        3,
        "m".to_string(),
        names.iter().map(|s| s.to_string()).collect(),
        DependencyRange { start, end },
        is_call,
        false,
        asi_safe,
    )
}

#[test]
fn call_on_non_namespace_drops_callee() {
    let d = dependency(&["default"], true, false, 0, 0);
    assert_eq!(d.get_referenced_exports(Some(ExportsType::DefaultOnly)), Vec::<String>::new());
    assert_eq!(d.get_referenced_exports(Some(ExportsType::Namespace)), vec!["default".to_string()]);
    assert_eq!(d.get_referenced_exports(None), vec!["default".to_string()]);
}

#[test]
fn call_with_longer_chain_keeps_all_but_last() {
    let d = dependency(&["a", "b", "c"], true, false, 0, 0);
    assert_eq!(d.get_referenced_exports(Some(ExportsType::Dynamic)), vec!["a".to_string(), "b".to_string()]);
    let e = dependency(&[], true, false, 0, 0);
    assert!(e.get_referenced_exports(Some(ExportsType::Dynamic)).is_empty());
    let f = dependency(&["a", "b"], false, false, 0, 0);
    assert_eq!(f.get_referenced_exports(Some(ExportsType::DefaultWithNamed)), vec!["a".to_string(), "b".to_string()]);
}

fn used_x() -> UsedAccess {
    UsedAccess { comment: "/* .a */".to_string(), access: ".x".to_string() }
}

#[test]
fn asi_guard_wraps_in_parentheses() {
    let d = dependency(&["a"], false, true, 0, 0);
    assert_eq!(d.render("1", Some(&used_x())), "(__webpack_require__(1)/* .a */.x)");
    let e = dependency(&["a"], false, false, 0, 0);
    assert_eq!(e.render("1", Some(&used_x())), "__webpack_require__(1)/* .a */.x");
    assert_eq!(e.render("\"./m\"", None), "__webpack_require__(\"./m\")");
}

#[test]
fn apply_replaces_exactly_the_range() {
    let d = dependency(&["a"], false, true, 8, 22);
    let mut source = b"var v = require('m').a;".to_vec();
    d.apply(&mut source, "1", Some(&used_x()));
    assert_eq!(String::from_utf8(source).unwrap(), "var v = (__webpack_require__(1)/* .a */.x);");
}

#[test]
fn replace_range_keeps_other_bytes() {
    let mut source = b"abcdef".to_vec();
    replace_range(&mut source, 2, 4, b"XYZ");
    assert_eq!(source, b"abXYZef".to_vec());
    let mut empty: Vec<u8> = Vec::new();
    replace_range(&mut empty, 0, 0, b"");
    assert!(empty.is_empty());
}

#[test]
fn accessors_report_fields() {
    let mut d = dependency(&["a"], true, false, 1, 5);
    assert_eq!(d.id(), 3);
    assert_eq!(d.dependency_id(), Some(3));
    assert_eq!(d.request(), "m");
    assert_eq!(d.user_request(), "m");
    assert_eq!(d.range(), Some(DependencyRange { start: 1, end: 5 }));
    assert!(!d.get_optional());
    assert_eq!(d.category(), DependencyCategory::CommonJS);
    assert_eq!(d.dependency_type(), DependencyType::CjsRequire);
    d.set_request("n".to_string());
    assert_eq!(d.request(), "n");
}
