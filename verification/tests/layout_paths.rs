//! Tests of path handling, display-key derivation, recent-path state and
//! name shortening.

use trace_stats::arith::{saturating_add_u64, saturating_sub_u64};
use trace_stats::demangle::strip_parens;
use trace_stats::display::{limit_string_name, limit_string_name_to};
use trace_stats::layout::{
    locate_single_config_file, multi_config_display_key, multi_config_target,
    pick_platform_build_dir,
};
use trace_stats::model::BuildVariant;
use trace_stats::persist::Persistance;
use trace_stats::strkit::{ends_with, split_slash, starts_with, string_le};

#[test]
fn single_config_path_yields_target_and_display_key() {
    let located = locate_single_config_file("CMakeFiles/mytarget.dir/src/x.cpp.json").unwrap();
    assert_eq!(located.target_name, "mytarget");
    assert_eq!(located.display_key, "src/x.cpp");
}

#[test]
fn single_config_path_without_target_uses_sentinel() {
    let located = locate_single_config_file("deep/nested/y.cpp.json").unwrap();
    assert_eq!(located.target_name, "NONE");
    assert_eq!(located.display_key, "deep/nested/y.cpp");
}

#[test]
fn non_trace_files_are_not_located() {
    assert!(locate_single_config_file("CMakeFiles/a.dir/readme.txt").is_none());
    assert!(locate_single_config_file("compile_commands.json").is_none());
    assert!(locate_single_config_file("sub/compile_commands.json").is_none());
}

#[test]
fn multi_config_names() {
    assert_eq!(multi_config_target("engine.dir").unwrap(), "engine");
    assert!(multi_config_target("notes.txt").is_none());
    assert_eq!(multi_config_display_key("src/a.cpp.json").unwrap(), "src/a.cpp");
    assert!(multi_config_display_key("src/a.cpp.o").is_none());
}

#[test]
fn platform_build_dir_is_first_matching_name() {
    let names = vec![
        "windows-x64".to_string(),
        "linux-x64-clang".to_string(),
        "linux-arm".to_string(),
        "docs".to_string(),
    ];
    let picked = pick_platform_build_dir(&names, "linux").unwrap();
    assert_eq!(picked, "linux-arm");
    assert!(pick_platform_build_dir(&names, "macos").is_none());
}

#[test]
fn parenthesis_wrapper_is_stripped() {
    assert_eq!(strip_parens("(_Z3fooi)"), "_Z3fooi");
    assert_eq!(strip_parens("((x))"), "x");
    assert_eq!(strip_parens("plain"), "plain");
    assert_eq!(strip_parens(""), "");
}

#[test]
fn short_names_are_displayed_unchanged() {
    assert_eq!(limit_string_name("short_name"), "short_name");
}

#[test]
fn long_names_keep_head_and_tail() {
    let name: String = std::iter::repeat('a').take(130).collect();
    let shortened = limit_string_name(&name);
    let head: String = std::iter::repeat('a').take(24).collect();
    let tail: String = std::iter::repeat('a').take(120).collect();
    assert_eq!(shortened, format!("{}...{}", head, tail));
}

#[test]
fn narrow_panes_shorten_earlier() {
    let name: String = std::iter::repeat('b').take(90).collect();
    assert_eq!(limit_string_name(&name), name);
    let shortened = limit_string_name_to(&name, 80, 12);
    let head: String = std::iter::repeat('b').take(12).collect();
    let tail: String = std::iter::repeat('b').take(80).collect();
    assert_eq!(shortened, format!("{}...{}", head, tail));
}

#[test]
fn variant_names_match_directories() {
    assert_eq!(BuildVariant::Debug.variant_name(), "Debug");
    assert_eq!(BuildVariant::DevRelease.variant_name(), "DevRelease");
    assert_eq!(BuildVariant::Release.variant_name(), "Release");
    assert_eq!(BuildVariant::SingleConfig.variant_name(), "SingleConfig");
}

#[test]
fn recent_paths_are_remembered_once() {
    let mut p = Persistance {
        persistance_file_path: String::new(),
        last_files: Vec::new(),
        last_selected_build_variant: BuildVariant::Release,
        is_functional: true,
    };
    assert!(p.push_last_path("/a"));
    assert!(p.push_last_path("/b"));
    assert!(!p.push_last_path("/a"));
    assert_eq!(p.last_paths(), vec!["/a", "/b"]);
    p.remove_last_path("/a");
    assert_eq!(p.last_paths(), vec!["/b"]);
    assert!(matches!(p.build_variant(), BuildVariant::Release));
}

#[test]
fn string_primitives() {
    assert!(string_le("abc", "abd"));
    assert!(!string_le("abd", "abc"));
    assert!(string_le("ab", "abc"));
    assert!(string_le("same", "same"));
    assert!(starts_with("linux-x64", "linux"));
    assert!(!starts_with("li", "linux"));
    assert!(ends_with("x.cpp.json", ".json"));
    assert!(!ends_with("x.cpp", ".json"));
    let segs = split_slash("a/b//c");
    assert_eq!(segs, vec!["a", "b", "", "c"]);
}

#[test]
fn saturating_arithmetic_clamps() {
    assert_eq!(saturating_add_u64(u64::MAX - 1, 5), u64::MAX);
    assert_eq!(saturating_add_u64(2, 5), 7);
    assert_eq!(saturating_sub_u64(3, 5), 0);
    assert_eq!(saturating_sub_u64(5, 3), 2);
}
