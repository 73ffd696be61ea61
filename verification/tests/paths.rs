use ai_session_manager::paths::{join_path, munge_claude_project_dir, remap_path, PathMapping};

#[test]
fn munge_windows_path() {
    assert_eq!(
        munge_claude_project_dir(r"E:\fromGithub\ai-session-manager"),
        "E--fromGithub-ai-session-manager"
    );
    assert_eq!(
        munge_claude_project_dir(r"C:\Users\27499\.understand-anything-repo"),
        "C--Users-27499--understand-anything-repo"
    );
}

#[test]
fn munge_posix_path_preserves_case() {
    assert_eq!(
        munge_claude_project_dir("/Users/sybil/code/App"),
        "-Users-sybil-code-App"
    );
}

#[test]
fn remap_longest_prefix_wins_and_converts_separators() {
    let maps = vec![
        PathMapping {
            from_prefix: r"E:\fromGithub".into(),
            to_prefix: "/Users/sybil/code".into(),
        },
        PathMapping {
            from_prefix: r"E:\fromGithub\special".into(),
            to_prefix: "/opt/special".into(),
        },
    ];
    assert_eq!(
        remap_path(r"E:\fromGithub\special\x", &maps).unwrap(),
        "/opt/special/x"
    );
    assert_eq!(
        remap_path(r"E:\fromGithub\bkcrab\sub", &maps).unwrap(),
        "/Users/sybil/code/bkcrab/sub"
    );
}

#[test]
fn remap_posix_to_windows() {
    let maps = vec![PathMapping {
        from_prefix: "/Users/sybil/code".into(),
        to_prefix: r"E:\fromGithub".into(),
    }];
    assert_eq!(
        remap_path("/Users/sybil/code/app", &maps).unwrap(),
        r"E:\fromGithub\app"
    );
}

#[test]
fn remap_no_match_returns_none() {
    assert!(remap_path("/nowhere", &[]).is_none());
}

#[test]
fn munge_keeps_length_and_is_idempotent() {
    let once = munge_claude_project_dir("/home/é/a b.c");
    assert_eq!(once, "-home---a-b-c");
    assert_eq!(once.chars().count(), "/home/é/a b.c".chars().count());
    assert_eq!(munge_claude_project_dir(&once), once);
}

#[test]
fn munge_keeps_non_ascii_letters_out() {
    assert_eq!(munge_claude_project_dir("E:\\项目\\x1"), "E-----x1");
}

#[test]
fn remap_tie_picks_the_later_rule() {
    let maps = vec![
        PathMapping { from_prefix: "/a".into(), to_prefix: "/first".into() },
        PathMapping { from_prefix: "/a".into(), to_prefix: "/second".into() },
    ];
    assert_eq!(remap_path("/a/b", &maps).unwrap(), "/second/b");
}

#[test]
fn remap_prefix_must_begin_the_path() {
    let maps = vec![PathMapping { from_prefix: "code".into(), to_prefix: "/x".into() }];
    assert!(remap_path("/Users/code/app", &maps).is_none());
}

#[test]
fn remap_forward_slash_drive_targets_use_backslashes() {
    let maps = vec![PathMapping { from_prefix: "/u".into(), to_prefix: "D:/work".into() }];
    assert_eq!(remap_path("/u/a/b", &maps).unwrap(), "D:/work\\a\\b");
}

#[test]
fn remap_non_ascii_drive_letter_keeps_forward_slashes() {
    let maps = vec![PathMapping { from_prefix: "/u".into(), to_prefix: "é:\\w".into() }];
    assert_eq!(remap_path("/u/a\\b", &maps).unwrap(), "é:\\w/a/b");
}

#[test]
fn join_path_follows_unix_rules() {
    assert_eq!(join_path("/a", "b"), "/a/b");
    assert_eq!(join_path("/a/", "b"), "/a/b");
    assert_eq!(join_path("", "b"), "b");
    assert_eq!(join_path("/a", "/b"), "/b");
    assert_eq!(join_path("a", ""), "a/");
}
