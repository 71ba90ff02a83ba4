use clang_sys::platform::{libclang_directory_patterns, llvm_config_patterns, TargetOs};
use clang_sys::search::{
    search_plan, SearchStep, escape_directory, filter_matches, join_path, override_file_hit, prefix_directories,
    relative_pattern, search_directories, search_patterns, xcode_toolchain_directory,
};

fn pair(d: &str, f: &str) -> (String, String) {
    (d.to_string(), f.to_string())
}

#[test]
fn excluded_infix_is_never_kept() {
    let found = vec![
        pair("/usr/lib", "libclang.so.17"),
        pair("/usr/lib", "libclang-cpp.so.17"),
        pair("/usr/lib", "libclang-cpp.so"),
        pair("/usr/lib64", "libclang.so"),
    ];
    let kept = filter_matches(&found);
    assert_eq!(kept, vec![pair("/usr/lib", "libclang.so.17"), pair("/usr/lib64", "libclang.so")]);
    assert!(kept.iter().all(|(_, f)| !f.contains("-cpp.")));
}

#[test]
fn directory_wildcards_are_escaped() {
    assert_eq!(escape_directory("/opt/llvm[17]/lib*"), "/opt/llvm[[]17[]]/lib[*]");
    let pats = search_patterns("/opt/x?", &vec!["libclang.so".to_string(), "libclang-*.so".to_string()]);
    assert_eq!(pats, vec!["/opt/x[?]/libclang.so".to_string(), "/opt/x[?]/libclang-*.so".to_string()]);
}

#[test]
fn joining_paths() {
    assert_eq!(join_path("/usr/lib", "libclang.so"), "/usr/lib/libclang.so");
    assert_eq!(join_path("/usr/lib/", "libclang.so"), "/usr/lib/libclang.so");
    assert_eq!(join_path("", "libclang.so"), "libclang.so");
    assert_eq!(join_path("/usr/lib", "/abs"), "/abs");
}

#[test]
fn windows_lib_directory_adds_sibling_bin() {
    let names = vec!["libclang.dll".to_string()];
    let pats = search_directories("C:\\LLVM\\lib", &names, TargetOs::Windows);
    assert_eq!(pats, vec!["C:\\LLVM\\lib/libclang.dll".to_string(), "C:\\LLVM\\bin/libclang.dll".to_string()]);
    let pats = search_directories("C:\\LLVM\\lib", &names, TargetOs::Linux);
    assert_eq!(pats.len(), 1);
    let pats = search_directories("C:\\LLVM\\lib64", &names, TargetOs::Windows);
    assert_eq!(pats.len(), 1);
}

#[test]
fn prefix_output_gives_three_directories() {
    let dirs = prefix_directories("/usr/lib/llvm-18\n").unwrap();
    assert_eq!(dirs, vec!["/usr/lib/llvm-18/bin".to_string(), "/usr/lib/llvm-18/lib".to_string(), "/usr/lib/llvm-18/lib64".to_string()]);
    assert_eq!(prefix_directories(""), None);
    let dirs = prefix_directories("C:/LLVM\r\nsecond").unwrap();
    assert_eq!(dirs[0], "C:/LLVM/bin");
}

#[test]
fn xcode_output_gives_toolchain_directory() {
    assert_eq!(
        xcode_toolchain_directory("/Applications/Xcode.app/Contents/Developer\n"),
        Some("/Applications/Xcode.app/Contents/Developer/Toolchains/XcodeDefault.xctoolchain/usr/lib".to_string())
    );
    assert_eq!(xcode_toolchain_directory(""), None);
}

#[test]
fn patterns_made_relative() {
    assert_eq!(relative_pattern("/usr/lib*"), "usr/lib*");
    assert_eq!(relative_pattern("C:\\LLVM\\lib"), "LLVM\\lib");
    assert_eq!(relative_pattern("relative"), "relative");
}

#[test]
fn override_names_a_found_file() {
    let found = vec![pair("/opt", "libclang.so"), pair("/opt", "libclang.so.18")];
    assert!(override_file_hit(&found, "libclang.so.18"));
    assert!(!override_file_hit(&found, "libclang.so.19"));
}

#[test]
fn pattern_tables() {
    assert_eq!(llvm_config_patterns(TargetOs::Linux), vec!["/usr/bin/llvm-config-*", "/usr/lib/llvm-*/bin/llvm-config", "/usr/local/llvm*/bin/llvm-config"]);
    assert!(llvm_config_patterns(TargetOs::Other).is_empty());
    assert_eq!(libclang_directory_patterns(TargetOs::Linux, false).len(), 7);
    assert_eq!(libclang_directory_patterns(TargetOs::Windows, true).len(), 4);
    assert_eq!(libclang_directory_patterns(TargetOs::Windows, false).len(), 6);
    assert_eq!(libclang_directory_patterns(TargetOs::Windows, false)[1], "C:\\MSYS*\\MinGW*\\lib");
    assert_eq!(libclang_directory_patterns(TargetOs::Illumos, false), vec!["/opt/ooce/llvm-*/lib", "/opt/ooce/clang-*/lib"]);
}

fn describe(steps: Vec<SearchStep>) -> Vec<String> {
    steps
        .into_iter()
        .map(|s| match s {
            SearchStep::Override(p) => format!("override {}", p),
            SearchStep::Directory(d) => format!("dir {}", d),
            SearchStep::Pattern(p) => format!("pattern {}", p),
        })
        .collect()
}

#[test]
fn override_is_searched_alone() {
    let plan = search_plan(Some("/opt/libclang.so"), Some("/usr/lib/llvm-18"), None, vec!["/x".to_string()], TargetOs::Linux, false, false);
    assert_eq!(describe(plan), vec!["override /opt/libclang.so".to_string()]);
}

#[test]
fn search_order() {
    let plan = search_plan(
        None,
        Some("/usr/lib/llvm-18"),
        Some("/Applications/Xcode.app/Contents/Developer"),
        vec!["/a".to_string(), "/b".to_string()],
        TargetOs::Linux,
        false,
        true,
    );
    let d = describe(plan);
    assert_eq!(d.len(), 3 + 2 + 7);
    assert_eq!(d[0], "dir /usr/lib/llvm-18/bin");
    assert_eq!(d[2], "dir /usr/lib/llvm-18/lib64");
    assert_eq!(d[3], "dir /a");
    assert_eq!(d[4], "dir /b");
    assert_eq!(d[5], "pattern usr/local/llvm*/lib*");
    let mac = describe(search_plan(None, None, Some("/Dev\n"), vec![], TargetOs::MacOs, false, false));
    assert_eq!(mac[0], "dir /Dev/Toolchains/XcodeDefault.xctoolchain/usr/lib");
    assert_eq!(mac[1], "pattern /opt/homebrew/opt/llvm*/lib");
}
