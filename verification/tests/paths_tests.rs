use weave::layout::{infer_name_from_key, is_workspace_path, nearest_bin_dir, package_name_in_node_modules};
use weave::paths::{
    relative_path, safe_join, sanitize_bin_name, sanitize_bin_rel, strip_package_prefix,
    validate_declared_output, validate_symlink_target,
};

#[test]
fn nearest_bin_dir_for_scoped_and_nested() {
    assert_eq!(nearest_bin_dir("node_modules/rimraf"), "node_modules/.bin");
    assert_eq!(nearest_bin_dir("node_modules/@scope/cli"), "node_modules/.bin");
    assert_eq!(
        nearest_bin_dir("node_modules/a/node_modules/b"),
        "node_modules/a/node_modules/.bin"
    );
}

#[test]
fn rejects_traversal_in_bin_paths() {
    assert!(sanitize_bin_rel("../etc/passwd").is_err());
    assert!(sanitize_bin_name("../x").is_err());
    assert!(sanitize_bin_name("a/b").is_err());
}

#[test]
fn relative_path_scoped_workspace() {
    let rel = relative_path("node_modules/@scope/lib", "packages/lib");
    assert_eq!(rel, "../../packages/lib");
}

#[test]
fn rejects_parent_traversal_targets() {
    assert!(validate_symlink_target("../outside").is_err());
}

#[test]
fn path_traversal_declared_output_rejected() {
    assert!(validate_declared_output("foo/../../x").is_err());
    assert!(validate_declared_output("..").is_err());
}

#[test]
fn declared_outputs_are_normalized_or_refused() {
    assert_eq!(validate_declared_output("build\\Release\\a.node").unwrap(), "build/Release/a.node");
    assert!(validate_declared_output("/abs").is_err());
    assert!(validate_declared_output("").is_err());
    assert!(validate_declared_output("../etc/passwd").is_err());
}

#[test]
fn safe_join_stays_under_base() {
    assert_eq!(safe_join("/base", "a/./b").unwrap(), "/base/a/b");
    assert!(safe_join("/base", "../x").is_err());
    assert!(safe_join("/base", "/etc").is_err());
}

#[test]
fn strips_tarball_package_prefix() {
    assert_eq!(strip_package_prefix("package/lib/index.js").unwrap(), "lib/index.js");
    assert_eq!(strip_package_prefix("package/../x").unwrap(), "../x");
    assert!(strip_package_prefix("../x").is_err());
    assert_eq!(strip_package_prefix("other/a.js").unwrap(), "other/a.js");
}

#[test]
fn names_follow_lockfile_keys() {
    assert_eq!(infer_name_from_key("node_modules/@s/p").as_deref(), Some("@s/p"));
    assert_eq!(infer_name_from_key(""), None);
    assert_eq!(infer_name_from_key("packages/app"), None);
    assert!(is_workspace_path("packages/app"));
    assert!(!is_workspace_path("node_modules/a"));
    assert!(!is_workspace_path(""));
    assert_eq!(package_name_in_node_modules("node_modules/a/node_modules/@s/b"), "@s/b");
}
