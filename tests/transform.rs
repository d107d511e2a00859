use qwik_core::code_move::new_module;
use qwik_core::collector::{GlobalCollect, HookCollect, Import, ImportKind};
use qwik_core::entry_strategy::{parse_entry_strategy, EntryStrategy};
use qwik_core::path::parse_path;
use qwik_core::transform::{
    classify_call, create_inline_qhook, escape_sym, sort_hooks, validate_sym, CallKind, FirstArg,
    Hook, HookTransform, SecondArg, TransformContext,
};

fn transform(path: &str, strategy: EntryStrategy) -> HookTransform<u32> {
    HookTransform::new(TransformContext::new(parse_entry_strategy(strategy)), parse_path(path))
}

fn strings(items: &[&str]) -> Vec<String> {
    items.iter().map(|s| s.to_string()).collect()
}

fn named_import(source: &str, specifier: &str) -> Import {
    Import { source: source.to_string(), specifier: specifier.to_string(), kind: ImportKind::Named }
}

#[test]
fn escape_sym_replaces_other_characters() {
    assert_eq!(escape_sym("Header_onRender"), "Header_onRender");
    assert_eq!(escape_sym("on-click.x$1"), "on_click_x_1");
    assert_eq!(escape_sym(""), "");
}

#[test]
fn validate_sym_follows_the_name_pattern() {
    assert!(validate_sym("my_hook"));
    assert!(validate_sym("_h"));
    assert!(validate_sym("a"));
    assert!(!validate_sym("1bad"));
    assert!(!validate_sym(""));
    assert!(!validate_sym("has space"));
    assert!(!validate_sym("dash-ed"));
    assert!(validate_sym(&"a".repeat(31)));
    assert!(!validate_sym(&"a".repeat(32)));
}

#[test]
fn named_hook_scenario() {
    let mut t = transform("components.tsx", EntryStrategy::Hook);
    let mut global = GlobalCollect::new();
    global.add_import("x".to_string(), named_import("./m", "x"));
    t.push_context("H".to_string());
    let site = t.begin_hook(&SecondArg::Str("my_hook".to_string()));
    assert_eq!(site.name, "my_hook");
    assert_eq!(site.canonical_filename, "h_components_my_hook");
    assert!(!site.invalid_name);
    let stub = t.record_hook(site, 7, &strings(&[]), &strings(&["x"]), &global).unwrap();
    t.pop_context();
    assert_eq!(stub.callee, "qHook");
    assert_eq!(stub.import_specifier, "./h_components_my_hook");
    assert_eq!(stub.name, "my_hook");
    let hook = &t.hooks[0];
    assert_eq!(hook.local_idents, strings(&["x"]));
    assert_eq!(hook.entry, None);
    assert_eq!(hook.expr, 7);
    let m = new_module(&t.path_data, hook, &global).unwrap();
    assert_eq!(m.imports.len(), 1);
    assert_eq!(m.imports[0].local, "x");
    assert_eq!(m.imports[0].imported, None);
    assert_eq!(m.imports[0].kind, ImportKind::Named);
    assert_eq!(m.imports[0].source, "./m");
    assert_eq!(m.export_name, "my_hook");
}

#[test]
fn unnamed_hooks_at_top_level() {
    let mut t = transform("Components.tsx", EntryStrategy::Hook);
    let global = GlobalCollect::new();
    let first = t.begin_hook(&SecondArg::Absent);
    assert_eq!(first.name, "_h");
    assert_eq!(first.canonical_filename, "h_components__h");
    t.record_hook(first, 1, &vec![], &vec![], &global).unwrap();
    let second = t.begin_hook(&SecondArg::Absent);
    assert_eq!(second.name, "_h1");
    assert_eq!(second.canonical_filename, "h_components__h1");
    let stub = t.record_hook(second, 2, &vec![], &vec![], &global).unwrap();
    assert_eq!(stub.import_specifier, "./h_components__h1");
    assert_eq!(t.context.hooks_names, strings(&["_h", "_h1"]));
}

#[test]
fn context_name_joins_and_escapes_the_stack() {
    let mut t = transform("app.tsx", EntryStrategy::Hook);
    t.push_context("Header".to_string());
    t.push_context("on-click".to_string());
    assert_eq!(t.get_context_name(), "Header_on_click");
    t.pop_context();
    assert_eq!(t.get_context_name(), "Header");
    t.pop_context();
    assert_eq!(t.get_context_name(), "_h");
    t.pop_context();
    assert_eq!(t.get_context_name(), "_h");
}

#[test]
fn smart_strategy_under_on_mount() {
    let mut t = transform("components.tsx", EntryStrategy::Smart);
    t.push_context("Header".to_string());
    t.push_context("onMount".to_string());
    let site = t.begin_hook(&SecondArg::Absent);
    assert_eq!(site.name, "Header_onMount");
    let stub = t.record_hook(site, 0, &vec![], &vec![], &GlobalCollect::new()).unwrap();
    assert_eq!(stub.import_specifier, "./entry-server");
    assert_eq!(t.hooks[0].entry.as_deref(), Some("entry-server"));
}

#[test]
fn manual_strategy_hook_entries() {
    let groups = vec![strings(&["foo", "bar"]), strings(&["baz"])];
    let mut t = transform("components.tsx", EntryStrategy::Manual(groups));
    let site = t.begin_hook(&SecondArg::Str("bar".to_string()));
    let stub = t.record_hook(site, 0, &vec![], &vec![], &GlobalCollect::new()).unwrap();
    assert_eq!(stub.import_specifier, "./entry_0");
    let site = t.begin_hook(&SecondArg::Str("other".to_string()));
    let stub = t.record_hook(site, 0, &vec![], &vec![], &GlobalCollect::new()).unwrap();
    assert_eq!(stub.import_specifier, "./entry-fallback");
}

#[test]
fn invalid_name_literal_falls_back() {
    let mut t = transform("components.tsx", EntryStrategy::Hook);
    t.push_context("Header".to_string());
    let site = t.begin_hook(&SecondArg::Str("1bad".to_string()));
    assert!(site.invalid_name);
    assert_eq!(site.name, "Header");
    assert_eq!(site.canonical_filename, "h_components_header");
}

#[test]
fn non_string_second_argument_is_ignored() {
    let mut t = transform("components.tsx", EntryStrategy::Hook);
    t.push_context("Header".to_string());
    let site = t.begin_hook(&SecondArg::Other);
    assert!(!site.invalid_name);
    assert_eq!(site.name, "Header");
}

#[test]
fn hook_in_nested_directory() {
    let mut t = transform("src/path/components.tsx", EntryStrategy::Hook);
    let mut global = GlobalCollect::new();
    global.add_export("helper".to_string(), "helper".to_string());
    global.add_import("state".to_string(), named_import("./state", "store"));
    let site = t.begin_hook(&SecondArg::Str("onClick".to_string()));
    let stub = t
        .record_hook(site, 0, &strings(&["e"]), &strings(&["helper", "e", "state", "console"]), &global)
        .unwrap();
    assert_eq!(stub.import_specifier, "./src/path/h_components_onclick");
    let hook = &t.hooks[0];
    assert_eq!(hook.local_idents, strings(&["helper", "state"]));
    assert_eq!(hook.origin, "src/path/components.tsx");
    let m = new_module(&t.path_data, hook, &global).unwrap();
    assert_eq!(m.imports.len(), 2);
    assert_eq!(m.imports[0].local, "helper");
    assert_eq!(m.imports[0].source, "./components");
    assert_eq!(m.imports[1].local, "state");
    assert_eq!(m.imports[1].imported.as_deref(), Some("store"));
    assert_eq!(m.imports[1].source, "./src/path/state");
}

#[test]
fn hook_without_captures_gets_only_its_export() {
    let mut t = transform("components.tsx", EntryStrategy::Hook);
    let site = t.begin_hook(&SecondArg::Str("plain".to_string()));
    t.record_hook(site, 0, &strings(&["a"]), &strings(&["a", "window"]), &GlobalCollect::new()).unwrap();
    let m = new_module(&t.path_data, &t.hooks[0], &GlobalCollect::new()).unwrap();
    assert!(m.imports.is_empty());
    assert_eq!(m.export_name, "plain");
}

#[test]
fn absolute_origin_records_nothing() {
    let mut t = transform("/abs/components.tsx", EntryStrategy::Hook);
    let site = t.begin_hook(&SecondArg::Absent);
    assert!(t.record_hook(site, 0, &vec![], &vec![], &GlobalCollect::new()).is_err());
    assert!(t.hooks.is_empty());
    assert!(t.context.hooks_names.is_empty());
}

#[test]
fn stub_is_not_a_hook_again() {
    let stub = create_inline_qhook("./h_a_b".to_string(), "b");
    assert_eq!(classify_call(&stub.callee, FirstArg::ImportThunk), CallKind::Other);
    assert_eq!(classify_call("qHook", FirstArg::Other), CallKind::Hook);
    assert_eq!(classify_call("qHook", FirstArg::Absent), CallKind::Hook);
    assert_eq!(classify_call("qComponent", FirstArg::Other), CallKind::Component);
    assert_eq!(classify_call("other", FirstArg::Other), CallKind::Other);
}

#[test]
fn hook_collect_dedups_and_filters() {
    let mut global = GlobalCollect::new();
    global.add_import("a".to_string(), named_import("./m", "a"));
    global.add_import("b".to_string(), named_import("./m", "b"));
    global.add_export("c".to_string(), "c".to_string());
    let c = HookCollect::new(
        &strings(&["b", "d", "b"]),
        &strings(&["a", "b", "c", "a", "d", "z"]),
        &global,
    );
    assert_eq!(c.local_decl, strings(&["b", "d"]));
    assert_eq!(c.local_idents, strings(&["a", "c"]));
}

#[test]
fn global_collect_replaces_records() {
    let mut g = GlobalCollect::new();
    g.add_import("a".to_string(), named_import("./m", "a"));
    g.add_import("a".to_string(), Import { source: "./n".to_string(), specifier: "a".to_string(), kind: ImportKind::Default });
    let i = g.get_import("a").unwrap();
    assert_eq!(i.source, "./n");
    assert_eq!(i.kind, ImportKind::Default);
    assert!(g.get_import("b").is_none());
    g.add_export("x".to_string(), "y".to_string());
    assert_eq!(g.get_export("x").map(|s| s.as_str()), Some("y"));
    assert!(g.get_export("a").is_none());
}

fn hook_at(index: usize, name: &str) -> Hook<u32> {
    Hook {
        entry: None,
        canonical_filename: name.to_lowercase(),
        name: name.to_string(),
        module_index: index,
        expr: index as u32,
        local_decl: vec![],
        local_idents: vec![],
        origin: "a.tsx".to_string(),
    }
}

#[test]
fn hooks_sort_by_descending_module_index() {
    let mut hooks = vec![hook_at(0, "a"), hook_at(2, "b"), hook_at(2, "c"), hook_at(1, "d"), hook_at(5, "e")];
    sort_hooks(&mut hooks);
    let order: Vec<(usize, String)> = hooks.iter().map(|h| (h.module_index, h.name.clone())).collect();
    assert_eq!(
        order,
        vec![
            (5, "e".to_string()),
            (2, "b".to_string()),
            (2, "c".to_string()),
            (1, "d".to_string()),
            (0, "a".to_string())
        ]
    );
}

#[test]
fn module_items_count_into_hooks() {
    let mut t = transform("components.tsx", EntryStrategy::Hook);
    t.set_root_sym(Some("App".to_string()));
    t.end_module_item();
    t.end_module_item();
    assert_eq!(t.root_sym.as_deref(), Some("App"));
    let site = t.begin_hook(&SecondArg::Absent);
    t.record_hook(site, 0, &vec![], &vec![], &GlobalCollect::new()).unwrap();
    assert_eq!(t.hooks[0].module_index, 2);
}

#[test]
fn repeated_explicit_name_is_kept_as_written() {
    let mut t = transform("components.tsx", EntryStrategy::Hook);
    for body in 0..2 {
        let site = t.begin_hook(&SecondArg::Str("foo".to_string()));
        assert_eq!(site.name, "foo");
        t.record_hook(site, body, &vec![], &vec![], &GlobalCollect::new()).unwrap();
    }
    assert_eq!(t.hooks[0].name, t.hooks[1].name);
}

#[test]
fn context_names_stay_unique_when_fresh() {
    let mut t = transform("components.tsx", EntryStrategy::Hook);
    let mut names = vec![];
    for _ in 0..3 {
        t.push_context("App".to_string());
        let site = t.begin_hook(&SecondArg::Absent);
        names.push(site.name.clone());
        t.record_hook(site, 0, &vec![], &vec![], &GlobalCollect::new()).unwrap();
        t.pop_context();
    }
    assert_eq!(names, strings(&["App", "App1", "App2"]));
}
