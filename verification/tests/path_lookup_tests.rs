use shell_core::path_lookup::{
    expand_tilde, is_direct_path, join_path, path_candidates, split_colon,
};

#[test]
fn join_inserts_single_separator() {
    assert_eq!(join_path("/bin", "ls"), "/bin/ls");
    assert_eq!(join_path("/bin/", "ls"), "/bin/ls");
    assert_eq!(join_path("", "ls"), "ls");
    assert_eq!(join_path("/bin", "/abs"), "/abs");
}

#[test]
fn expand_tilde_cases() {
    assert_eq!(expand_tilde("~", "/home/u"), "/home/u");
    assert_eq!(expand_tilde("~/d/f", "/home/u"), "/home/u/d/f");
    assert_eq!(expand_tilde("plain", "/home/u"), "plain");
    assert_eq!(expand_tilde("~other", "/home/u"), "~other");
    assert_eq!(expand_tilde("", "/home/u"), "");
}

#[test]
fn split_colon_segments() {
    assert_eq!(split_colon("a:b:c"), vec!["a", "b", "c"]);
    assert_eq!(split_colon(""), vec![""]);
    assert_eq!(split_colon("a:"), vec!["a", ""]);
    assert_eq!(split_colon(":a"), vec!["", "a"]);
}

#[test]
fn candidates_follow_search_path_order() {
    assert_eq!(
        path_candidates("ls", "/bin:/usr/bin"),
        vec!["/bin/ls", "/usr/bin/ls"]
    );
    assert_eq!(path_candidates("ls", ""), vec!["ls"]);
}

#[test]
fn direct_path_detection() {
    assert!(is_direct_path("./x"));
    assert!(is_direct_path("/usr/bin/ls"));
    assert!(is_direct_path("a/b"));
    assert!(!is_direct_path("ls"));
    assert!(!is_direct_path(""));
}
