use clang_sys::version_key::{
    extract_version_from_llvm_path, is_unversioned, parse_major_version, resolve_unversioned,
    UNVERSIONED,
};

#[test]
fn versioned_executable_name() {
    assert_eq!(extract_version_from_llvm_path("/usr/bin/llvm-config-17"), vec![17]);
    assert_eq!(extract_version_from_llvm_path("/usr/bin/llvm-config-17.0.6"), vec![17, 0, 6]);
}

#[test]
fn versioned_executable_without_number_is_deprioritized() {
    assert_eq!(extract_version_from_llvm_path("/usr/bin/llvm-config-foo"), vec![0]);
}

#[test]
fn homebrew_directory() {
    assert_eq!(extract_version_from_llvm_path("/opt/homebrew/opt/llvm@17/bin/llvm-config"), vec![17]);
}

#[test]
fn package_directory() {
    assert_eq!(extract_version_from_llvm_path("/usr/lib/llvm-18/bin/llvm-config"), vec![18]);
    assert_eq!(extract_version_from_llvm_path("/opt/local/libexec/llvm-16/bin/llvm-config"), vec![16]);
}

#[test]
fn unversioned_directory() {
    assert_eq!(extract_version_from_llvm_path("/opt/homebrew/opt/llvm/bin/llvm-config"), vec![UNVERSIONED]);
    assert_eq!(UNVERSIONED, 999);
}

#[test]
fn non_numeric_pieces_are_skipped() {
    assert_eq!(extract_version_from_llvm_path("/usr/lib/llvm-17.x.2/bin/llvm-config"), vec![17, 2]);
    assert_eq!(extract_version_from_llvm_path("/usr/lib/llvm-dev/llvm-15/bin/llvm-config"), vec![15]);
}

#[test]
fn extraction_orders_like_releases() {
    let mut paths = vec![
        "/usr/lib/llvm-9/bin/llvm-config",
        "/usr/lib/llvm-18/bin/llvm-config",
        "/usr/lib/llvm-14/bin/llvm-config",
    ];
    paths.sort_by_key(|p| extract_version_from_llvm_path(p));
    assert_eq!(paths[0], "/usr/lib/llvm-9/bin/llvm-config");
    assert_eq!(paths[2], "/usr/lib/llvm-18/bin/llvm-config");
    let p = "/usr/lib/llvm-14/bin/llvm-config";
    assert_eq!(extract_version_from_llvm_path(p), extract_version_from_llvm_path(p));
}

#[test]
fn major_version_output() {
    assert_eq!(parse_major_version("17.0.6\n"), Some(17));
    assert_eq!(parse_major_version("  21\n"), Some(21));
    assert_eq!(parse_major_version("garbage"), None);
    assert_eq!(parse_major_version(""), None);
    assert_eq!(parse_major_version("99999999999.1"), None);
}

#[test]
fn unversioned_key_is_resolved() {
    assert!(is_unversioned(&vec![999]));
    assert!(!is_unversioned(&vec![999, 1]));
    assert_eq!(resolve_unversioned(vec![999], Some(19)), vec![19]);
    assert_eq!(resolve_unversioned(vec![999], None), vec![999]);
    assert_eq!(resolve_unversioned(vec![17], Some(19)), vec![17]);
}

#[test]
fn windows_separators() {
    assert_eq!(extract_version_from_llvm_path("C:\\tools\\llvm-17\\bin\\llvm-config.exe"), vec![17]);
    assert_eq!(extract_version_from_llvm_path("C:\\bin\\llvm-config-18.1"), vec![18, 1]);
}

#[test]
fn dotted_releases_order_like_releases() {
    let mut paths = vec![
        "/usr/lib/llvm-17.0.6/bin/llvm-config",
        "/usr/lib/llvm-17.0.10/bin/llvm-config",
        "/usr/lib/llvm-9.1/bin/llvm-config",
        "/usr/lib/llvm-17/bin/llvm-config",
    ];
    paths.sort_by_key(|p| extract_version_from_llvm_path(p));
    assert_eq!(paths, vec![
        "/usr/lib/llvm-9.1/bin/llvm-config",
        "/usr/lib/llvm-17/bin/llvm-config",
        "/usr/lib/llvm-17.0.6/bin/llvm-config",
        "/usr/lib/llvm-17.0.10/bin/llvm-config",
    ]);
}
