use rustbox::cli::subcmd2;
use rustbox::cli::taskmgr;
use rustbox::cli::AddArgs;
use rustbox::derive_helpers::{
    default_count, is_field_helper, is_type_param_helper, is_variant_helper, kept_attrs,
    uppercase_string, HelperKind,
};
use rustbox::samples::LogLevel;
use rustbox::text::{chars_of, same_text, starts_with, trimmed, with_decimal};

#[test]
fn taskmgr_reports() {
    let add = taskmgr::Commands::Add(AddArgs { task_name: "write docs".to_string() });
    assert_eq!(taskmgr::report(&add), "Adding task: 'write docs'");
    let rm = taskmgr::Commands::Remove { id: 12, force: false };
    assert_eq!(taskmgr::report(&rm), "Removing task ID: 12");
    let rm = taskmgr::Commands::Remove { id: 4000000000, force: true };
    assert_eq!(taskmgr::report(&rm), "Forcefully removing task ID: 4000000000");
}

#[test]
fn subcmd2_reports() {
    let add = subcmd2::Commands::Add(AddArgs { task_name: "t".to_string() });
    assert_eq!(subcmd2::execution_report(&add), "Executing 'add' with task: 't'");
    let rm = subcmd2::Commands::Remove { id: 0 };
    assert_eq!(subcmd2::execution_report(&rm), "Executing 'remove' for task ID: 0");
    assert_eq!(subcmd2::verbose_line(true), "Verbose Mode: true");
    assert_eq!(subcmd2::verbose_line(false), "Verbose Mode: false");
}

#[test]
fn derive_helper_rules() {
    assert_eq!(uppercase_string("Running custom macro code!".to_string()), "RUNNING CUSTOM MACRO CODE!");
    assert_eq!(uppercase_string("straße".to_string()), "STRASSE");
    assert_eq!(default_count(), 1);
    assert!(is_field_helper("field_info"));
    assert!(is_field_helper("field_info_2"));
    assert!(!is_field_helper("field_info_3"));
    assert!(is_variant_helper("variant_info"));
    assert!(is_variant_helper("variant_info_2"));
    assert!(!is_variant_helper("field_info"));
    assert!(is_type_param_helper("my_type_attr"));
    assert!(!is_type_param_helper("doc"));
}

#[test]
fn text_helpers() {
    assert_eq!(trimmed("  a b \n"), "a b");
    assert_eq!(trimmed("\u{A0}x\u{2003}"), "x");
    assert_eq!(trimmed(" \t "), "");
    assert_eq!(trimmed(""), "");
    assert!(starts_with("System: hi", "System:"));
    assert!(!starts_with("Sys", "System:"));
    assert!(starts_with("abc", ""));
    assert!(same_text("héllo", "héllo"));
    assert!(!same_text("a", "ab"));
    assert_eq!(chars_of("héllo"), vec!['h', 'é', 'l', 'l', 'o']);
    assert_eq!(with_decimal("n=", 1005), "n=1005");
}

#[test]
fn log_level_sample() {
    let extra = 5;
    let lvl: LogLevel<i32> = LogLevel::Error { message: "m".to_string(), code: 2, extra: &extra };
    let copy = lvl.clone();
    assert!(matches!(copy, LogLevel::Error { code: 2, .. }));
    let w: LogLevel<i32> = LogLevel::Warn("w".to_string(), -1);
    assert!(format!("{:?}", w).contains("Warn"));
}

#[test]
fn kept_attrs_strips_only_helpers_of_the_kind() {
    let names = vec![
        Some("field_info".to_string()),
        Some("doc".to_string()),
        None,
        Some("field_info_2".to_string()),
        Some("variant_info".to_string()),
    ];
    assert_eq!(kept_attrs(&names, HelperKind::Field), vec![false, true, true, false, true]);
    assert_eq!(kept_attrs(&names, HelperKind::Variant), vec![true, true, true, true, false]);
    let params = vec![Some("my_type_attr".to_string()), Some("doc".to_string())];
    assert_eq!(kept_attrs(&params, HelperKind::TypeParam), vec![false, true]);
    assert!(kept_attrs(&Vec::new(), HelperKind::Field).is_empty());
}
