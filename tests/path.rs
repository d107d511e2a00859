use qwik_core::path::{fix_path, parse_path, PathError};

#[test]
fn test_fix_path() {
    assert_eq!(fix_path("src/components.tsx", "./state").unwrap(), "./src/state");
    assert_eq!(fix_path("src/path/components.tsx", "./state").unwrap(), "./src/path/state");
    assert_eq!(fix_path("src/components.tsx", "../state").unwrap(), "./state");
    assert_eq!(fix_path("components.tsx", "./state").unwrap(), "./state");
}

#[test]
fn fix_path_keeps_bare_specifier() {
    assert_eq!(fix_path("src/components.tsx", "react").unwrap(), "react");
    assert_eq!(fix_path("a/b/c.ts", "@builder.io/qwik").unwrap(), "@builder.io/qwik");
}

#[test]
fn fix_path_rejects_absolute_origin() {
    assert_eq!(fix_path("/src/components.tsx", "./state"), Err(PathError::AbsoluteOrigin));
    assert_eq!(fix_path("/src/components.tsx", "react"), Err(PathError::AbsoluteOrigin));
}

#[test]
fn fix_path_normalizes_parent_steps() {
    assert_eq!(fix_path("src/path/components.tsx", "../state").unwrap(), "./src/state");
    assert_eq!(fix_path("src/path/components.tsx", "./a/../b").unwrap(), "./src/path/b");
}

#[test]
fn parse_path_splits_parts() {
    let p = parse_path("src/path/components.tsx");
    assert_eq!(p.path, "src/path/components.tsx");
    assert_eq!(p.dir, "src/path");
    assert_eq!(p.file_name, "components.tsx");
    assert_eq!(p.file_stem, "components");
    assert_eq!(p.extension, "tsx");
    assert_eq!(p.file_prefix, "components");
}

#[test]
fn parse_path_prefix_stops_at_first_dot() {
    let p = parse_path("lib/app.test.tsx");
    assert_eq!(p.file_stem, "app.test");
    assert_eq!(p.extension, "tsx");
    assert_eq!(p.file_prefix, "app");
}

#[test]
fn parse_path_without_dir_or_dot() {
    let p = parse_path("Makefile");
    assert_eq!(p.dir, "");
    assert_eq!(p.file_name, "Makefile");
    assert_eq!(p.file_stem, "Makefile");
    assert_eq!(p.extension, "");
    assert_eq!(p.file_prefix, "Makefile");
}

#[test]
fn parse_path_round_trip() {
    for src in ["src/path/components.tsx", "components.tsx", "a/b.c.d"] {
        let p = parse_path(src);
        let rebuilt = if p.dir.is_empty() && !src.contains('/') {
            format!("{}.{}", p.file_stem, p.extension)
        } else {
            format!("{}/{}.{}", p.dir, p.file_stem, p.extension)
        };
        assert_eq!(rebuilt, src);
    }
}
