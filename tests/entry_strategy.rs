use qwik_core::collector::{GlobalCollect, HookCollect};
use qwik_core::entry_strategy::{
    parse_entry_strategy, EntryPolicy, EntryStrategy, ManualStrategy, PerComponentStrategy,
    PerHookStrategy, SingleStrategy, SmartStrategy,
};
use qwik_core::path::parse_path;

fn empty_collect() -> HookCollect {
    HookCollect::new(&vec![], &vec![], &GlobalCollect::new())
}

fn ctx(items: &[&str]) -> Vec<String> {
    items.iter().map(|s| s.to_string()).collect()
}

#[test]
fn single_strategy_groups_everything() {
    let p = parse_path("components.tsx");
    let r = SingleStrategy.get_entry_for_sym("a", &p, &ctx(&["X"]), &empty_collect());
    assert_eq!(r.as_deref(), Some("entry_hooks"));
}

#[test]
fn per_hook_strategy_gives_no_entry() {
    let p = parse_path("components.tsx");
    let r = PerHookStrategy {}.get_entry_for_sym("a", &p, &ctx(&["X"]), &empty_collect());
    assert_eq!(r, None);
}

#[test]
fn per_component_strategy_uses_first_context() {
    let p = parse_path("components.tsx");
    let s = PerComponentStrategy {};
    assert_eq!(
        s.get_entry_for_sym("a", &p, &ctx(&["Header", "onRender"]), &empty_collect()).as_deref(),
        Some("entry_Header")
    );
    assert_eq!(s.get_entry_for_sym("a", &p, &ctx(&[]), &empty_collect()).as_deref(), Some("entry-fallback"));
}

#[test]
fn smart_strategy_sends_on_mount_to_server() {
    let p = parse_path("components.tsx");
    let s = SmartStrategy;
    assert_eq!(
        s.get_entry_for_sym("a", &p, &ctx(&["Header", "onMount"]), &empty_collect()).as_deref(),
        Some("entry-server")
    );
    assert_eq!(
        s.get_entry_for_sym("a", &p, &ctx(&["Header", "onRender"]), &empty_collect()).as_deref(),
        Some("entry_Header")
    );
    assert_eq!(s.get_entry_for_sym("a", &p, &ctx(&[]), &empty_collect()).as_deref(), Some("entry-fallback"));
}

#[test]
fn manual_strategy_looks_up_groups() {
    let p = parse_path("components.tsx");
    let groups = vec![ctx(&["foo", "bar"]), ctx(&["baz"])];
    let s = ManualStrategy::new(groups);
    assert_eq!(s.get_entry_for_sym("bar", &p, &ctx(&[]), &empty_collect()).as_deref(), Some("entry_0"));
    assert_eq!(s.get_entry_for_sym("baz", &p, &ctx(&[]), &empty_collect()).as_deref(), Some("entry_1"));
    assert_eq!(
        s.get_entry_for_sym("unknown", &p, &ctx(&[]), &empty_collect()).as_deref(),
        Some("entry-fallback")
    );
}

#[test]
fn manual_strategy_later_group_wins() {
    let p = parse_path("components.tsx");
    let mut groups: Vec<Vec<String>> = (0..11).map(|i| ctx(&[&format!("s{}", i)])).collect();
    groups.push(ctx(&["s0"]));
    let s = ManualStrategy::new(groups);
    assert_eq!(s.get_entry_for_sym("s0", &p, &ctx(&[]), &empty_collect()).as_deref(), Some("entry_11"));
    assert_eq!(s.get_entry_for_sym("s10", &p, &ctx(&[]), &empty_collect()).as_deref(), Some("entry_10"));
}

#[test]
fn parsed_strategy_dispatches() {
    let p = parse_path("components.tsx");
    let m = parse_entry_strategy(EntryStrategy::Manual(vec![ctx(&["foo"])]));
    assert_eq!(m.get_entry_for_sym("foo", &p, &ctx(&[]), &empty_collect()).as_deref(), Some("entry_0"));
    let h = parse_entry_strategy(EntryStrategy::Hook);
    assert_eq!(h.get_entry_for_sym("foo", &p, &ctx(&["A"]), &empty_collect()), None);
    let c = parse_entry_strategy(EntryStrategy::Component);
    assert_eq!(c.get_entry_for_sym("foo", &p, &ctx(&["A"]), &empty_collect()).as_deref(), Some("entry_A"));
    let sm = parse_entry_strategy(EntryStrategy::Smart);
    assert_eq!(sm.get_entry_for_sym("foo", &p, &ctx(&["onMount"]), &empty_collect()).as_deref(), Some("entry-server"));
    let si = parse_entry_strategy(EntryStrategy::Single);
    assert_eq!(si.get_entry_for_sym("foo", &p, &ctx(&[]), &empty_collect()).as_deref(), Some("entry_hooks"));
}
