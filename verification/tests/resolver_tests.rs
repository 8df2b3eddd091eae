use scrcpy_core::resolver::{binary_filename, candidate_paths, choose_binary, join_path};

#[test]
fn filename_with_and_without_extension() {
    assert_eq!(binary_filename("scrcpy", ""), "scrcpy");
    assert_eq!(binary_filename("scrcpy", "exe"), "scrcpy.exe");
}

#[test]
fn join_inserts_separator_once() {
    assert_eq!(join_path("/opt/bin", '/', "adb"), "/opt/bin/adb");
    assert_eq!(join_path("/opt/bin/", '/', "adb"), "/opt/bin/adb");
    assert_eq!(join_path("", '/', "adb"), "adb");
    assert_eq!(join_path("C:\\tools", '\\', "adb.exe"), "C:\\tools\\adb.exe");
    assert_eq!(join_path("C:/tools/", '\\', "adb.exe"), "C:/tools/adb.exe");
}

#[test]
fn candidates_follow_the_search_order() {
    let cands = candidate_paths(
        "scrcpy",
        &Some("/custom".to_string()),
        &Some("/cwd".to_string()),
        &Some("/app".to_string()),
        '/',
    );
    assert_eq!(
        cands,
        vec![
            "/custom/scrcpy".to_string(),
            "/cwd/scrcpy-bin/scrcpy".to_string(),
            "/app/scrcpy-bin/scrcpy".to_string(),
        ]
    );
}

#[test]
fn missing_directories_drop_their_candidates() {
    let cands = candidate_paths("adb", &None, &Some("/cwd".to_string()), &None, '/');
    assert_eq!(cands, vec!["/cwd/scrcpy-bin/adb".to_string()]);
}

#[test]
fn first_existing_candidate_wins() {
    let cands = vec!["/a/x".to_string(), "/b/x".to_string(), "/c/x".to_string()];
    let present = vec![false, true, true];
    assert_eq!(choose_binary("x", &cands, &present), "/b/x");
}

#[test]
fn no_existing_candidate_falls_back_to_bare_name() {
    let cands = vec!["/a/x".to_string()];
    let present = vec![false];
    assert_eq!(choose_binary("x", &cands, &present), "x");
    assert_eq!(choose_binary("x", &Vec::new(), &Vec::new()), "x");
}
