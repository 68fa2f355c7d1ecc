use rule_engine::farmscript::builtins::{builtins, builtins_by_category, builtins_map, get_builtin, FnCategory};

#[test]
fn test_get_builtin() {
    let clamp = get_builtin("clamp");
    assert!(clamp.is_some());
    assert_eq!(clamp.unwrap().arity, (3, Some(3)));
}

#[test]
fn test_builtins_by_category() {
    let math_fns = builtins_by_category(FnCategory::Math);
    assert!(math_fns.len() >= 5);
    assert!(math_fns.iter().any(|f| f.name == "abs"));
}

#[test]
fn test_all_builtins_have_descriptions() {
    for builtin in builtins() {
        assert!(!builtin.description.is_empty(), "Missing description for {}", builtin.name);
    }
}

#[test]
fn builtins_unknown_name_is_none() {
    assert!(get_builtin("no_such_function").is_none());
}

#[test]
fn builtins_by_category_keeps_only_that_category() {
    for f in builtins_by_category(FnCategory::Array) {
        assert_eq!(f.category, FnCategory::Array);
    }
}

#[test]
fn builtins_map_is_keyed_by_name() {
    let m = builtins_map();
    assert_eq!(m.len(), builtins().len());
    for (name, f) in m {
        assert_eq!(name, f.name);
    }
}

#[test]
fn builtins_clone_keeps_fields() {
    let f = get_builtin("safe_div").unwrap();
    let g = f.clone_fn();
    assert_eq!(f.name, g.name);
    assert_eq!(f.arity, g.arity);
    assert_eq!(f.args, g.args);
}
