use mcp_manager::resolver::{
    find_npx_candidates, first_existing, is_npx_command, path_join, plan_command, split_string,
    version_dirs_root,
};

#[test]
fn candidates_search_path_then_fixed_locations() {
    let path_var = Some(String::from("/usr/bin:/opt/bin"));
    let home = "/home/u";
    let profile = "";
    let version_dirs: Vec<String> = Vec::new();
    let cands = find_npx_candidates(&path_var, home, profile, &version_dirs, false);
    let expected = vec![
        String::from("/usr/bin/npx"),
        String::from("/usr/bin/npx.cmd"),
        String::from("/opt/bin/npx"),
        String::from("/opt/bin/npx.cmd"),
        String::from("/home/u/.volta/bin/npx"),
        String::from("/usr/local/bin/npx"),
        String::from("/opt/homebrew/bin/npx"),
        String::from("/home/u/.local/bin/npx"),
        String::from("/home/u/bin/npx"),
        String::from("\\AppData\\Local\\Volta\\bin\\npx.cmd"),
        String::from("C:\\Program Files\\nodejs\\npx.cmd"),
        String::from("\\AppData\\Roaming\\npm\\npx.cmd"),
    ];
    assert_eq!(cands, expected);
}

#[test]
fn candidates_expand_version_directories_in_place() {
    let version_dirs = vec![
        String::from("/h/.nvm/versions/node/v1"),
        String::from("/h/.nvm/versions/node/v2"),
    ];
    let cands = find_npx_candidates(&None, "/h", "", &version_dirs, false);
    assert_eq!(cands[0], "/h/.volta/bin/npx");
    assert_eq!(cands[1], "/usr/local/bin/npx");
    assert_eq!(cands[2], "/opt/homebrew/bin/npx");
    assert_eq!(cands[3], "/h/.nvm/versions/node/v1/bin/npx");
    assert_eq!(cands[4], "/h/.nvm/versions/node/v2/bin/npx");
    assert_eq!(cands[5], "/h/.local/bin/npx");
}

#[test]
fn first_existing_returns_first_probe_hit() {
    let cands = vec![String::from("a"), String::from("b"), String::from("c")];
    let probes = vec![false, true, true];
    assert_eq!(first_existing(&cands, &probes), Some(String::from("b")));
}

#[test]
fn first_existing_none_when_no_probe_hits() {
    let cands = vec![String::from("a"), String::from("b")];
    let probes = vec![false, false];
    assert_eq!(first_existing(&cands, &probes), None);
}

#[test]
fn plain_command_is_spawned_as_given() {
    let command = String::from("python3");
    let args = vec![String::from("-V")];
    let plan = plan_command(&command, &args, &None, false);
    assert_eq!(plan.program, "python3");
    assert_eq!(plan.args, args);
}

#[test]
fn resolved_runner_is_spawned_at_its_path() {
    let command = String::from("npx");
    let args = vec![String::from("some-tool")];
    let resolved = Some(String::from("/usr/local/bin/npx"));
    let plan = plan_command(&command, &args, &resolved, false);
    assert_eq!(plan.program, "/usr/local/bin/npx");
    assert_eq!(plan.args, args);
}

#[test]
fn unresolved_runner_falls_back_to_shell() {
    let command = String::from("npx");
    let args = vec![String::from("some-tool"), String::from("--flag")];
    let plan = plan_command(&command, &args, &None, false);
    assert_eq!(plan.program, "sh");
    assert_eq!(plan.args, vec![String::from("-c"), String::from("npx some-tool --flag")]);
}

#[test]
fn unresolved_runner_without_args_passes_bare_command() {
    let command = String::from("npx");
    let args: Vec<String> = Vec::new();
    let plan = plan_command(&command, &args, &None, false);
    assert_eq!(plan.program, "sh");
    assert_eq!(plan.args, vec![String::from("-c"), String::from("npx")]);
}

#[test]
fn windows_fallback_uses_cmd() {
    let command = String::from("npx");
    let args = vec![String::from("tool")];
    let plan = plan_command(&command, &args, &None, true);
    assert_eq!(plan.program, "cmd");
    assert_eq!(plan.args, vec![String::from("/C"), String::from("npx tool")]);
}

#[test]
fn runner_name_detection() {
    assert!(is_npx_command("npx"));
    assert!(is_npx_command("/usr/local/bin/npx"));
    assert!(!is_npx_command("npxx"));
    assert!(!is_npx_command("node"));
    assert!(!is_npx_command(""));
}

#[test]
fn path_join_handles_empty_and_trailing_separator() {
    assert_eq!(path_join("", "npx", false), "npx");
    assert_eq!(path_join("/a/", "npx", false), "/a/npx");
    assert_eq!(path_join("/a", "npx", false), "/a/npx");
    assert_eq!(path_join("C:\\bin\\", "npx.cmd", true), "C:\\bin\\npx.cmd");
    assert_eq!(path_join("C:\\bin", "npx.cmd", true), "C:\\bin\\npx.cmd");
}

#[test]
fn version_directories_are_enumerated_under_the_wildcard_segment() {
    assert_eq!(version_dirs_root("/home/u"), "/home/u/.nvm/versions/node");
}

#[test]
fn empty_search_path_entry_yields_bare_names() {
    let path_var = Some(String::from(""));
    let cands = find_npx_candidates(&path_var, "/h", "", &Vec::new(), false);
    assert_eq!(cands[0], "npx");
    assert_eq!(cands[1], "npx.cmd");
}

#[test]
fn split_keeps_empty_pieces() {
    assert_eq!(
        split_string("a::b", ':'),
        vec![String::from("a"), String::from(""), String::from("b")]
    );
    assert_eq!(split_string("", ':'), vec![String::from("")]);
    assert_eq!(split_string("abc", ':'), vec![String::from("abc")]);
}
