use std::cell::Cell;

use clang_sys::discovery::{
    accept_path_llvm_config, detected_warning, mismatch_warning, find_llvm_config, get_target_clang_version, resolve_llvm_config_path,
    LlvmConfigCache,
};
use clang_sys::probe::{
    add_command_error, run_command, run_llvm_config, run_xcode_select, CommandErrorPrinter,
    CommandErrors, CommandOutcome,
};

#[test]
fn command_error_is_recorded_under_program_name() {
    let mut errors = CommandErrors::new();
    add_command_error(&mut errors, "llvm-config", "/usr/bin/llvm-config", &["--prefix"], "error: gone".to_string());
    let got = errors.get("llvm-config").unwrap();
    assert_eq!(got, vec!["couldn't execute `llvm-config --prefix` (path=/usr/bin/llvm-config) (error: gone)".to_string()]);
    assert!(errors.get("xcode-select").is_none());
}

#[test]
fn command_errors_accumulate_in_order() {
    let mut errors = CommandErrors::new();
    add_command_error(&mut errors, "llvm-config", "p", &["--libs", "--link-static"], "a".to_string());
    add_command_error(&mut errors, "xcode-select", "xcode-select", &["--print-path"], "b".to_string());
    add_command_error(&mut errors, "llvm-config", "p", &[], "c".to_string());
    let got = errors.get("llvm-config").unwrap();
    assert_eq!(got.len(), 2);
    assert_eq!(got[0], "couldn't execute `llvm-config --libs --link-static` (path=p) (a)");
    assert_eq!(got[1], "couldn't execute `llvm-config ` (path=p) (c)");
    assert_eq!(errors.get("xcode-select").unwrap().len(), 1);
}

#[test]
fn successful_run_returns_output_and_records_nothing() {
    let mut errors = CommandErrors::new();
    let outcome = CommandOutcome::Exited { success: true, status: "exit status: 0".to_string(), stdout: "/usr/lib/llvm-18\n".to_string() };
    let r = run_llvm_config(&mut errors, "llvm-config", &["--prefix"], outcome);
    assert_eq!(r, Some("/usr/lib/llvm-18".to_string()));
    assert!(errors.get("llvm-config").is_none());
}

#[test]
fn failed_spawn_is_recorded() {
    let mut errors = CommandErrors::new();
    let r = run_xcode_select(&mut errors, &["--print-path"], CommandOutcome::NotStarted("No such file".to_string()));
    assert_eq!(r, None);
    assert_eq!(
        errors.get("xcode-select").unwrap(),
        vec!["couldn't execute `xcode-select --print-path` (path=xcode-select) (error: No such file)".to_string()]
    );
}

#[test]
fn nonzero_exit_is_recorded() {
    let mut errors = CommandErrors::new();
    let outcome = CommandOutcome::Exited { success: false, status: "exit status: 1".to_string(), stdout: "ignored".to_string() };
    let r = run_command(&mut errors, "llvm-config", "/x/llvm-config", &["--version"], outcome);
    assert_eq!(r, None);
    assert_eq!(
        errors.get("llvm-config").unwrap(),
        vec!["couldn't execute `llvm-config --version` (path=/x/llvm-config) (exit code: exit status: 1)".to_string()]
    );
}

#[test]
fn printer_reports_unless_discarded() {
    let mut errors = CommandErrors::new();
    add_command_error(&mut errors, "llvm-config", "llvm-config", &["--prefix"], "error: x".to_string());
    add_command_error(&mut errors, "llvm-config", "llvm-config", &["--libdir"], "error: y".to_string());
    let printer = CommandErrorPrinter::default();
    let lines = printer.report(&errors);
    assert_eq!(lines.len(), 1);
    assert!(lines[0].starts_with("cargo:warning=could not execute `llvm-config` one or more times"));
    assert!(lines[0].ends_with(
        "on your system: \"couldn't execute `llvm-config --prefix` (path=llvm-config) (error: x)\"\n  \"couldn't execute `llvm-config --libdir` (path=llvm-config) (error: y)\""
    ));
    let mut printer = CommandErrorPrinter::default();
    printer.discard();
    assert!(printer.report(&errors).is_empty());
}

#[test]
fn printer_reports_both_programs() {
    let mut errors = CommandErrors::new();
    add_command_error(&mut errors, "xcode-select", "xcode-select", &["--print-path"], "e".to_string());
    add_command_error(&mut errors, "llvm-config", "llvm-config", &["--prefix"], "f".to_string());
    let lines = CommandErrorPrinter::default().report(&errors);
    assert_eq!(lines.len(), 2);
    assert!(lines[0].contains("`llvm-config`"));
    assert!(lines[1].contains("`xcode-select`"));
    assert!(CommandErrorPrinter::default().report(&CommandErrors::new()).is_empty());
}

#[test]
fn helper_search_runs_once() {
    let calls = Cell::new(0u32);
    let mut cache = LlvmConfigCache::new();
    for _ in 0..3 {
        let r = find_llvm_config(&mut cache, || {
            calls.set(calls.get() + 1);
            Some("/usr/lib/llvm-18/bin/llvm-config".to_string())
        });
        assert_eq!(r, Some("/usr/lib/llvm-18/bin/llvm-config".to_string()));
    }
    assert_eq!(calls.get(), 1);
}

#[test]
fn helper_search_that_finds_nothing_is_cached_too() {
    let calls = Cell::new(0u32);
    let mut cache = LlvmConfigCache::new();
    for _ in 0..2 {
        let r = resolve_llvm_config_path(None, &mut cache, || {
            calls.set(calls.get() + 1);
            None
        });
        assert_eq!(r, "llvm-config");
    }
    assert_eq!(calls.get(), 1);
}

#[test]
fn override_wins_without_search() {
    let calls = Cell::new(0u32);
    let mut cache = LlvmConfigCache::new();
    let r = resolve_llvm_config_path(Some("/opt/llvm/bin/llvm-config".to_string()), &mut cache, || {
        calls.set(calls.get() + 1);
        None
    });
    assert_eq!(r, "/opt/llvm/bin/llvm-config");
    assert_eq!(calls.get(), 0);
}

#[test]
fn target_version_is_highest_known_feature() {
    assert_eq!(get_target_clang_version(&vec![]), None);
    assert_eq!(get_target_clang_version(&vec![(3, 5), (3, 6), (4, 0), (17, 0), (18, 0)]), Some(18));
    assert_eq!(get_target_clang_version(&vec![(3, 5), (3, 9)]), Some(3));
    assert_eq!(get_target_clang_version(&vec![(23, 0), (5, 0)]), Some(23));
    assert_eq!(get_target_clang_version(&vec![(24, 0), (3, 4), (17, 1)]), None);
}

#[test]
fn path_llvm_config_accepted_when_it_fits() {
    assert!(accept_path_llvm_config(None, "15.0.7\n"));
    assert!(accept_path_llvm_config(Some(18), "18.1.3\n"));
    assert!(!accept_path_llvm_config(Some(18), "15.0.7\n"));
    assert!(!accept_path_llvm_config(Some(18), "weird\n"));
    assert!(!accept_path_llvm_config(Some(18), ""));
    assert!(accept_path_llvm_config(None, ""));
}

#[test]
fn search_messages() {
    assert_eq!(
        detected_warning(Some(18), "/usr/lib/llvm-18/bin/llvm-config"),
        "cargo:warning=clang-sys: auto-detected llvm-config (v18) at: /usr/lib/llvm-18/bin/llvm-config"
    );
    assert_eq!(detected_warning(None, "llvm-config"), "cargo:warning=clang-sys: auto-detected llvm-config at: llvm-config");
    assert_eq!(
        mismatch_warning(19, &vec![17, 18]),
        "cargo:warning=clang-sys: could not find llvm-config for v19 (available: 17, 18). Install LLVM 19 or set LLVM_CONFIG_PATH."
    );
    assert_eq!(
        mismatch_warning(100, &vec![]),
        "cargo:warning=clang-sys: could not find llvm-config for v100 (available: none). Install LLVM 100 or set LLVM_CONFIG_PATH."
    );
}
