use clang_sys::select::{select_candidate, Candidate, SelectError};

fn candidate(path: &str, version: &[u32]) -> Candidate {
    Candidate { path: path.to_string(), version: version.to_vec() }
}

#[test]
fn target_version_picks_exact_match() {
    let cands = vec![candidate("libclang-config-17", &[17]), candidate("libclang-config-18", &[18])];
    let r = select_candidate(&cands, Some(18));
    assert!(matches!(r, Ok(1)));
    assert_eq!(cands[1].path, "libclang-config-18");
}

#[test]
fn missing_target_version_fails_with_available_list() {
    let cands = vec![candidate("libclang-config-17", &[17]), candidate("libclang-config-18", &[18])];
    match select_candidate(&cands, Some(19)) {
        Err(SelectError::VersionMismatch { target, available }) => {
            assert_eq!(target, 19);
            assert_eq!(available, vec![17, 18]);
            let shown: Vec<String> = available.iter().map(|v| v.to_string()).collect();
            assert_eq!(shown, vec!["17".to_string(), "18".to_string()]);
        }
        _ => panic!("expected a version mismatch"),
    }
}

#[test]
fn no_target_picks_highest_key() {
    let cands = vec![
        candidate("/usr/lib/llvm-14/bin/llvm-config", &[14]),
        candidate("/usr/lib/llvm-18/bin/llvm-config", &[18, 1]),
        candidate("/usr/lib/llvm-18b/bin/llvm-config", &[18]),
        candidate("/usr/lib/llvm-9/bin/llvm-config", &[9]),
    ];
    assert!(matches!(select_candidate(&cands, None), Ok(1)));
}

#[test]
fn no_target_tie_prefers_earliest() {
    let cands = vec![
        candidate("/first/llvm-config", &[17]),
        candidate("/second/llvm-config", &[17]),
    ];
    assert!(matches!(select_candidate(&cands, None), Ok(0)));
}

#[test]
fn unversioned_sentinel_ranks_above_releases() {
    let cands = vec![
        candidate("/usr/local/opt/llvm@17/bin/llvm-config", &[17]),
        candidate("/usr/local/opt/llvm/bin/llvm-config", &[999]),
    ];
    assert!(matches!(select_candidate(&cands, None), Ok(1)));
}

#[test]
fn target_picks_first_discovered_match() {
    let cands = vec![
        candidate("/a", &[16]),
        candidate("/b", &[17, 0, 1]),
        candidate("/c", &[17, 0, 6]),
    ];
    assert!(matches!(select_candidate(&cands, Some(17)), Ok(1)));
}

#[test]
fn empty_pool_reports_no_candidates() {
    assert!(matches!(select_candidate(&Vec::new(), None), Err(SelectError::NoCandidates)));
    assert!(matches!(select_candidate(&Vec::new(), Some(18)), Err(SelectError::NoCandidates)));
}

#[test]
fn mismatch_skips_empty_keys_in_available_list() {
    let cands = vec![candidate("/a", &[]), candidate("/b", &[15])];
    match select_candidate(&cands, Some(16)) {
        Err(SelectError::VersionMismatch { available, .. }) => assert_eq!(available, vec![15]),
        _ => panic!("expected a version mismatch"),
    }
}
