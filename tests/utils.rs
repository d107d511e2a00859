use qwik_core::parse::{hook_module_path, main_module_path, parse_filename, TransformModule, TransformResult};
use qwik_core::path::parse_path;
use qwik_core::utils::{MapVec, SourceLocation};
use std::cmp::Ordering;

#[test]
fn map_vec_collects_values_per_key() {
    let mut m: MapVec<u32, &str> = MapVec::new();
    assert!(m.get(&1).is_none());
    m.push(1, "a");
    m.push(2, "b");
    m.push(1, "c");
    assert_eq!(m.get(&1), Some(&vec!["a", "c"]));
    assert_eq!(m.get(&2), Some(&vec!["b"]));
    assert!(m.get(&3).is_none());
}

#[test]
fn source_location_converts_columns() {
    let l = SourceLocation::from(3, 0, 3, 5);
    assert_eq!(l, SourceLocation { start_line: 3, start_col: 1, end_line: 3, end_col: 5 });
}

#[test]
fn source_location_orders_by_start() {
    let a = SourceLocation::from(1, 4, 9, 9);
    let b = SourceLocation::from(2, 0, 2, 1);
    let c = SourceLocation::from(1, 7, 1, 8);
    assert_eq!(a.partial_cmp(&b), Some(Ordering::Less));
    assert_eq!(b.partial_cmp(&a), Some(Ordering::Greater));
    assert_eq!(a.partial_cmp(&c), Some(Ordering::Less));
    assert_eq!(a.partial_cmp(&SourceLocation::from(1, 4, 1, 4)), Some(Ordering::Equal));
}

#[test]
fn file_extension_dispatch() {
    assert_eq!(parse_filename("a/b.ts"), (true, false));
    assert_eq!(parse_filename("a/b.js"), (false, false));
    assert_eq!(parse_filename("a/b.jsx"), (false, true));
    assert_eq!(parse_filename("a/b.tsx"), (true, true));
    assert_eq!(parse_filename("noext"), (true, true));
}

#[test]
fn output_module_paths() {
    let p = parse_path("src/components.tsx");
    assert_eq!(main_module_path(&p, false), "src/components.tsx");
    assert_eq!(main_module_path(&p, true), "src/components.js");
    assert_eq!(hook_module_path("h_components_a", &p, false), "h_components_a.tsx");
    assert_eq!(hook_module_path("h_components_a", &p, true), "h_components_a.js");
    let q = parse_path("components.tsx");
    assert_eq!(main_module_path(&q, false), "components.tsx");
}

#[test]
fn transform_results_append() {
    let mut a = TransformResult::new();
    let mut b = TransformResult::new();
    b.modules.push(TransformModule { path: "x.js".to_string(), code: String::new(), map: None, is_entry: true });
    a.append(&mut b);
    assert_eq!(a.modules.len(), 1);
    assert_eq!(a.modules[0].path, "x.js");
    assert!(b.modules.is_empty());
}
