use std::sync::Arc;

use clang_sys::loader::{
    classify_version, missing_function_message, needs_version_text, version_from_string,
    version_markers, FunctionSlots, LibraryRegistry, Version,
};

fn present(markers: &[&str]) -> Vec<bool> {
    version_markers().iter().map(|(name, _)| markers.contains(name)).collect()
}

#[test]
fn marker_nineteen_without_version_text() {
    let p = present(&["clang_Cursor_getBinaryOpcode", "clang_CXXMethod_isExplicit"]);
    assert!(!needs_version_text(&p));
    assert_eq!(classify_version(&p, None), Some(Version::V19_0));
}

#[test]
fn newest_marker_with_version_text() {
    let p = present(&["clang_getFullyQualifiedName", "clang_getOffsetOfBase"]);
    assert!(needs_version_text(&p));
    let reported = version_from_string("clang version 22.0.3");
    assert_eq!(reported, Some(Version::V22_0));
    assert_eq!(classify_version(&p, reported), Some(Version::V22_0));
}

#[test]
fn newest_marker_without_version_text_gives_floor() {
    let p = present(&["clang_getFullyQualifiedName"]);
    assert_eq!(classify_version(&p, None), Some(Version::V21_0));
}

#[test]
fn seventeen_marker_refined_by_text() {
    let p = present(&["clang_CXXMethod_isExplicit", "clang_Type_getValueType"]);
    assert!(needs_version_text(&p));
    assert_eq!(classify_version(&p, version_from_string("clang version 18.1.3 (1ubuntu1)")), Some(Version::V18_0));
    assert_eq!(version_from_string("Ubuntu clang version 18.1.3"), None);
    assert_eq!(classify_version(&p, version_from_string("Ubuntu clang version 18.1.3")), Some(Version::V17_0));
    assert_eq!(classify_version(&p, version_from_string("clang version 17.0.6")), Some(Version::V17_0));
}

#[test]
fn older_reported_version_never_lowers_marker() {
    let p = present(&["clang_getFullyQualifiedName"]);
    assert_eq!(classify_version(&p, Some(Version::V18_0)), Some(Version::V21_0));
}

#[test]
fn no_marker_is_unsupported() {
    assert_eq!(classify_version(&present(&[]), Some(Version::V22_0)), None);
    assert_eq!(classify_version(&vec![], None), None);
}

#[test]
fn oldest_marker() {
    let p = present(&["clang_Type_getNumTemplateArguments"]);
    assert_eq!(classify_version(&p, None), Some(Version::V3_5));
}

#[test]
fn version_text_parsing() {
    assert_eq!(version_from_string("clang version 23.1.0"), Some(Version::V23_0));
    assert_eq!(version_from_string("clang version 30.0.0"), Some(Version::V23_0));
    assert_eq!(version_from_string("clang version 13.0.1"), Some(Version::V12_0));
    assert_eq!(version_from_string("clang version 10.0.0"), Some(Version::V9_0));
    assert_eq!(version_from_string("clang version 3.9.1"), None);
    assert_eq!(version_from_string("clang version"), None);
    assert_eq!(version_from_string("clang version x.1"), None);
}

#[test]
fn versions_are_ordered_by_release() {
    assert!(Version::V3_5 < Version::V4_0);
    assert!(Version::V19_0 < Version::V20_0);
    assert_eq!(Version::V9_0.label(), "9.0.x - 10.0.x");
    assert_eq!(Version::V23_0.label(), "23.0.x or later");
    assert_eq!(Version::V17_0.rank(), 170);
}

#[test]
fn registry_round_trip() {
    let mut registry: LibraryRegistry<String> = LibraryRegistry::new();
    assert!(!registry.is_loaded());
    registry.load("libclang.so".to_string());
    assert!(registry.is_loaded());
    assert_eq!(registry.get_library().map(|l| (*l).clone()), Some("libclang.so".to_string()));
    assert!(registry.unload().is_ok());
    assert!(!registry.is_loaded());
    assert_eq!(
        registry.unload(),
        Err("a `libclang` shared library is not in use in the current thread".to_string())
    );
}

#[test]
fn registry_hand_off() {
    let mut first: LibraryRegistry<u32> = LibraryRegistry::new();
    first.load(7);
    let shared = first.get_library();
    let mut second: LibraryRegistry<u32> = LibraryRegistry::new();
    assert!(second.set_library(shared).is_none());
    assert_eq!(second.get_library().map(|a| *a), Some(7));
    let previous = second.set_library(Some(Arc::new(8)));
    assert_eq!(previous.map(|a| *a), Some(7));
}

#[test]
fn missing_function_report() {
    let m = missing_function_message("clang_getOffsetOfBase", Some(Version::V19_0));
    assert!(m.contains("called function = `clang_getOffsetOfBase`"));
    assert!(m.contains("loaded `libclang` instance = 19.0.x"));
    assert!(m.contains("https://docs.rs/clang-sys/latest/clang_sys/clang_getOffsetOfBase/index.html"));
    let m = missing_function_message("clang_x", None);
    assert!(m.contains("loaded `libclang` instance = unsupported version"));
}

#[test]
fn function_slots() {
    let slots = FunctionSlots::load(vec![
        ("clang_createIndex".to_string(), true),
        ("clang_getOffsetOfBase".to_string(), false),
    ]);
    assert!(slots.is_loaded("clang_createIndex"));
    assert!(!slots.is_loaded("clang_getOffsetOfBase"));
    assert!(!slots.is_loaded("clang_unknown"));
}
