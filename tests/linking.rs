use clang_sys::linking::{
    clang_library_pattern, get_clang_libraries, get_library_name, get_llvm_libraries,
    llvm_link_prefix, static_marker_files, system_library_flags,
};
use clang_sys::platform::TargetOs;

#[test]
fn library_names_from_paths() {
    assert_eq!(get_library_name("/usr/lib/libclangBasic.a"), Some("clangBasic".to_string()));
    assert_eq!(get_library_name("/usr/lib/libLLVM.so.17"), Some("LLVM.so".to_string()));
    assert_eq!(get_library_name("clangAST.lib"), Some("clangAST".to_string()));
    assert_eq!(get_library_name("/x/.hidden"), Some(".hidden".to_string()));
    assert_eq!(get_library_name("/x/.."), None);
    assert_eq!(get_library_name("/"), None);
    assert_eq!(get_library_name("C:\\LLVM\\lib\\LLVMCore.lib"), Some("LLVMCore".to_string()));
}

#[test]
fn llvm_libraries_from_output() {
    let out = "-lLLVMCore -lLLVMSupport\n/usr/lib/llvm-18/lib/libLLVMDemangle.a  C:\\x\\LLVMIR.lib\n";
    assert_eq!(
        get_llvm_libraries(out),
        vec!["LLVMCore".to_string(), "LLVMSupport".to_string(), "LLVMDemangle".to_string(), "LLVMIR".to_string()]
    );
    assert!(get_llvm_libraries("  \n").is_empty());
}

#[test]
fn clang_libraries_from_matches_or_defaults() {
    let found = vec!["/usr/lib/libclangAST.a".to_string(), "/usr/lib/libclang.a".to_string()];
    assert_eq!(get_clang_libraries(Some(&found)), vec!["clangAST".to_string(), "clang".to_string()]);
    let defaults = get_clang_libraries(None);
    assert_eq!(defaults.len(), 13);
    assert_eq!(defaults[0], "clang");
    assert_eq!(defaults[12], "clangSerialization");
    assert_eq!(clang_library_pattern("/opt/[x]"), "/opt/[[]x[]]/libclang*.a");
}

#[test]
fn link_flags() {
    assert_eq!(llvm_link_prefix(Some("static\n")), "static=");
    assert_eq!(llvm_link_prefix(Some("shared\n")), "");
    assert_eq!(llvm_link_prefix(None), "");
    assert_eq!(system_library_flags(TargetOs::Linux, false), Some("-l ffi -l ncursesw -l stdc++ -l z"));
    assert_eq!(system_library_flags(TargetOs::Linux, true), Some("-l c++"));
    assert_eq!(system_library_flags(TargetOs::MacOs, false), Some("-l ffi -l ncurses -l c++ -l z"));
    assert_eq!(system_library_flags(TargetOs::Windows, false), None);
    assert_eq!(static_marker_files(TargetOs::Windows), vec!["libclang.lib", "clangBasic.lib"]);
    assert_eq!(static_marker_files(TargetOs::Linux), vec!["libclang.a", "libclangBasic.a"]);
}
