use ai_session_manager::config::AppConfig;
use ai_session_manager::gitcli::{
    git_invocation, pull_rebase_outcome, push_outcome, CloneStage, CloneTarget, CommitStage,
    GitError, GitRepo, GitStep,
};
use ai_session_manager::model::{SessionMeta, SessionSource, SessionSummary};
use ai_session_manager::sync::{
    update_meta_message, upload_action, upload_message, SyncEngine, UpdateStage, UpdateStep, UploadAction,
    UploadStep,
};
use ai_session_manager::syncrepo::{meta_write_wins, sort_by_activity, SyncRepo};

fn sample_meta(updated_at: &str) -> SessionMeta {
    SessionMeta {
        schema_version: 1,
        session_id: "s-1".into(),
        source: SessionSource::Codex,
        title: "t".into(),
        description: String::new(),
        tags: vec![],
        starred: false,
        origin_device_id: "dev-a".into(),
        origin_cwd: r"E:\fake\proj".into(),
        relative_store_path: "2026/06/21/rollout-x.jsonl".into(),
        started_at: "2026-06-21T02:54:52.130Z".into(),
        last_active_at: "2026-06-21T02:55:10.000Z".into(),
        updated_at: updated_at.into(),
    }
}

fn sample_summary() -> SessionSummary {
    SessionSummary {
        session_id: "s-1".into(),
        source: SessionSource::ClaudeCode,
        cwd: r"E:\fake\proj".into(),
        transcript_path: "/tmp/orig.jsonl".into(),
        relative_store_path: "E--fake-proj/s-1.jsonl".into(),
        first_message: "帮我修 bug".into(),
        message_count: 3,
        started_at: "2026-07-05T02:46:20.453Z".into(),
        last_active_at: "2026-07-05T02:50:00.000Z".into(),
    }
}

/// Applies a metadata write to a stored copy as the repository does.
fn write(stored: Option<SessionMeta>, incoming: SessionMeta) -> SessionMeta {
    match stored {
        Some(existing) if !meta_write_wins(Some(&existing), &incoming) => existing,
        _ => incoming,
    }
}

#[test]
fn meta_lww_older_write_is_rejected_newer_wins() {
    let stored = write(None, sample_meta("2026-07-05T10:00:00Z"));
    let mut older = sample_meta("2026-07-05T09:00:00Z");
    older.title = "旧标题".into();
    let stored = write(Some(stored), older);
    assert_eq!(stored.title, "t");
    let mut newer = sample_meta("2026-07-05T11:00:00Z");
    newer.title = "新标题".into();
    let stored = write(Some(stored), newer);
    assert_eq!(stored.title, "新标题");
}

#[test]
fn equally_old_write_is_rejected() {
    let existing = sample_meta("2026-07-05T10:00:00Z");
    assert!(!meta_write_wins(Some(&existing), &sample_meta("2026-07-05T10:00:00Z")));
    assert!(meta_write_wins(None, &sample_meta("")));
}

#[test]
fn lww_converges_whatever_the_order() {
    let mut a = sample_meta("2026-07-05T10:00:00Z");
    a.title = "a".into();
    let mut b = sample_meta("2026-07-05T11:00:00Z");
    b.title = "b".into();
    let ab = write(Some(write(None, a)), b);
    let mut a2 = sample_meta("2026-07-05T10:00:00Z");
    a2.title = "a".into();
    let mut b2 = sample_meta("2026-07-05T11:00:00Z");
    b2.title = "b".into();
    let ba = write(Some(write(None, b2)), a2);
    assert_eq!(ab.title, "b");
    assert_eq!(ba.title, "b");
}

#[test]
fn repository_layout() {
    let repo = SyncRepo { root: "/m".into() };
    assert_eq!(repo.session_dir("s-1"), "/m/sessions/s-1");
    assert_eq!(repo.transcript_path("s-1"), "/m/sessions/s-1/transcript.jsonl");
    assert_eq!(repo.meta_path("s-1"), "/m/sessions/s-1/meta.json");
    assert_eq!(repo.device_info_path("dev-a"), "/m/devices/dev-a.json");
    assert_eq!(repo.sessions_dir(), "/m/sessions");
}

#[test]
fn metas_are_listed_most_recent_first_and_ties_keep_order() {
    let mut v = Vec::new();
    for (title, at) in [("a", "2026-01-01"), ("b", "2026-03-01"), ("c", "2026-01-01"), ("d", "2026-02-01")] {
        let mut m = sample_meta("x");
        m.title = title.into();
        m.last_active_at = at.into();
        v.push(m);
    }
    let sorted = sort_by_activity(v);
    let titles: Vec<&str> = sorted.iter().map(|m| m.title.as_str()).collect();
    assert_eq!(titles, vec!["b", "d", "a", "c"]);
}

#[test]
fn first_upload_records_initial_meta() {
    let s = sample_summary();
    match upload_action(&s, b"{\"a\":1}\n", None, None, "dev-a", "2026-07-05T10:00:00Z") {
        UploadAction::Add(m) => {
            assert_eq!(m.title, "帮我修 bug");
            assert_eq!(m.origin_device_id, "dev-a");
            assert_eq!(m.updated_at, "2026-07-05T10:00:00Z");
            assert_eq!(m.schema_version, 1);
            assert!(!m.starred);
            assert!(m.tags.is_empty());
            assert_eq!(m.origin_cwd, r"E:\fake\proj");
        }
        other => panic!("unexpected {:?}", other),
    }
}

#[test]
fn upload_unchanged_transcript_is_skipped() {
    let s = sample_summary();
    let bytes = b"{\"a\":1}\n";
    let action = upload_action(
        &s,
        bytes,
        Some(&bytes[..]),
        Some(sample_meta("2026-07-05T10:00:00Z")),
        "dev-a",
        "2026-07-05T10:05:00Z",
    );
    assert!(matches!(action, UploadAction::Skip));
}

#[test]
fn reupload_longer_transcript_overwrites_but_keeps_meta_edits() {
    let s = sample_summary();
    let mut stored = sample_meta("2026-07-05T11:00:00Z");
    stored.title = "我的重要会话".into();
    let action = upload_action(
        &s,
        b"{\"a\":1}\n{\"a\":2}\n",
        Some(&b"{\"a\":1}\n"[..]),
        Some(stored),
        "dev-a",
        "2026-07-05T12:00:00Z",
    );
    match action {
        UploadAction::Refresh { meta, write_meta } => {
            assert!(write_meta);
            assert_eq!(meta.title, "我的重要会话");
            assert_eq!(meta.updated_at, "2026-07-05T12:00:00Z");
            assert_eq!(meta.last_active_at, "2026-07-05T02:50:00.000Z");
        }
        other => panic!("unexpected {:?}", other),
    }
}

#[test]
fn upload_and_edit_messages() {
    assert_eq!(upload_message(2, "dev-a"), "sync: upload 2 session(s) from dev-a");
    assert_eq!(upload_message(0, "d"), "sync: upload 0 session(s) from d");
    assert_eq!(upload_message(1234, "d"), "sync: upload 1234 session(s) from d");
    assert_eq!(update_meta_message("s-1"), "meta: update s-1");
}

fn run_args<T>(step: &GitStep<T>) -> Vec<String> {
    match step {
        GitStep::Run { args, .. } => args.clone(),
        _ => panic!("expected a git run"),
    }
}

#[test]
fn commit_all_stages_checks_and_commits() {
    let repo = GitRepo { dir: "/m".into() };
    let (mut job, step) = repo.commit_all("add hello");
    assert_eq!(run_args(&step), vec!["add", "-A"]);
    let step = job.resume(Ok(String::new()));
    assert_eq!(run_args(&step), vec!["status", "--porcelain"]);
    let step = job.resume(Ok(" M hello.txt\n".into()));
    assert_eq!(run_args(&step), vec!["commit", "-m", "add hello"]);
    let step = job.resume(Ok(String::new()));
    assert!(matches!(step, GitStep::Done(Ok(true))));
    assert_eq!(job.stage, CommitStage::Finished);
}

#[test]
fn commit_all_with_nothing_to_commit() {
    let repo = GitRepo { dir: "/m".into() };
    let (mut job, _) = repo.commit_all("nothing");
    job.resume(Ok(String::new()));
    let step = job.resume(Ok(" \n\t\n".into()));
    assert!(matches!(step, GitStep::Done(Ok(false))));
}

#[test]
fn commit_all_stops_at_a_failure() {
    let repo = GitRepo { dir: "/m".into() };
    let (mut job, _) = repo.commit_all("x");
    let step = job.resume(Err(GitError { message: "boom".into() }));
    match step {
        GitStep::Done(Err(e)) => assert_eq!(e.message, "boom"),
        _ => panic!("expected failure"),
    }
}

#[test]
fn pull_tolerates_an_empty_remote_only() {
    let missing = GitError {
        message: "git [\"pull\"] failed: fatal: couldn't find remote ref main".into(),
    };
    assert!(pull_rebase_outcome(Err(missing)).is_ok());
    let other = GitError { message: "fatal: could not read from remote".into() };
    assert_eq!(pull_rebase_outcome(Err(other)).unwrap_err().message, "fatal: could not read from remote");
    assert!(pull_rebase_outcome(Ok(String::new())).is_ok());
    assert!(push_outcome(Err(GitError { message: "rejected".into() })).is_err());
}

#[test]
fn git_runs_with_the_identity_first() {
    let args = git_invocation(&vec!["status".to_string()]);
    assert_eq!(
        args,
        vec!["-c", "user.email=ai-session-manager@local", "-c", "user.name=ai-session-manager", "status"]
    );
}

#[test]
fn ensure_clone_points_existing_origin_at_the_url() {
    let target = CloneTarget { dest: "/m".into(), has_git_dir: true, parent: Some("/".into()), name: Some("m".into()) };
    let (mut job, step) = GitRepo::ensure_clone("/remote-b", &target);
    assert_eq!(run_args(&step), vec!["remote", "get-url", "origin"]);
    let step = job.resume(Ok("/remote-a\n".into()));
    assert_eq!(run_args(&step), vec!["remote", "set-url", "origin", "/remote-b"]);
    match job.resume(Ok(String::new())) {
        GitStep::Done(Ok(repo)) => assert_eq!(repo.dir, "/m"),
        _ => panic!("expected a repository"),
    }
}

#[test]
fn ensure_clone_keeps_a_matching_origin_and_adds_a_missing_one() {
    let target = CloneTarget { dest: "/m".into(), has_git_dir: true, parent: None, name: None };
    let (mut job, _) = GitRepo::ensure_clone("/remote", &target);
    assert!(matches!(job.resume(Ok("  /remote \n".into())), GitStep::Done(Ok(_))));
    let (mut job, _) = GitRepo::ensure_clone("/remote", &target);
    let step = job.resume(Err(GitError { message: "no such remote".into() }));
    assert_eq!(run_args(&step), vec!["remote", "add", "origin", "/remote"]);
}

#[test]
fn ensure_clone_clones_into_a_new_directory() {
    let target = CloneTarget {
        dest: "/data/mirror".into(),
        has_git_dir: false,
        parent: Some("/data".into()),
        name: Some("mirror".into()),
    };
    let (mut job, step) = GitRepo::ensure_clone("/remote", &target);
    assert!(matches!(step, GitStep::CreateDir { ref dir } if dir == "/data"));
    let step = job.resume(Ok(String::new()));
    match &step {
        GitStep::Run { dir, args } => {
            assert_eq!(dir, "/data");
            assert_eq!(args, &vec!["clone", "/remote", "mirror"]);
        }
        _ => panic!("expected clone"),
    }
    let step = job.resume(Ok(String::new()));
    assert_eq!(run_args(&step), vec!["checkout", "-B", "main"]);
    match job.resume(Err(GitError { message: "ignored".into() })) {
        GitStep::Done(Ok(repo)) => assert_eq!(repo.dir, "/data/mirror"),
        _ => panic!("expected a repository"),
    }
    assert_eq!(job.stage, CloneStage::Finished);
}

#[test]
fn ensure_clone_without_parent_fails() {
    let target = CloneTarget { dest: "".into(), has_git_dir: false, parent: None, name: None };
    let (_, step) = GitRepo::ensure_clone("/remote", &target);
    match step {
        GitStep::Done(Err(e)) => assert_eq!(e.message, "dest has no parent"),
        _ => panic!("expected failure"),
    }
}

#[test]
fn engine_commit_and_push_pushes_after_a_commit() {
    let engine = SyncEngine::connect(GitRepo { dir: "/m".into() });
    assert_eq!(engine.repo().root, "/m");
    assert_eq!(run_args(&engine.refresh()), vec!["pull", "--rebase", "origin", "main"]);
    let (mut job, step) = engine.commit_and_push("devices: update mappings");
    assert_eq!(run_args(&step), vec!["add", "-A"]);
    job.resume(Ok(String::new()));
    let step = job.resume(Ok("?? devices/x.json\n".into()));
    assert_eq!(run_args(&step), vec!["commit", "-m", "devices: update mappings"]);
    let step = job.resume(Ok(String::new()));
    assert_eq!(run_args(&step), vec!["push", "-u", "origin", "main"]);
    assert!(matches!(job.resume(Ok(String::new())), GitStep::Done(Ok(()))));
}

#[test]
fn engine_commit_and_push_skips_push_when_clean() {
    let engine = SyncEngine::connect(GitRepo { dir: "/m".into() });
    let (mut job, _) = engine.commit_and_push("m");
    job.resume(Ok(String::new()));
    assert!(matches!(job.resume(Ok(String::new())), GitStep::Done(Ok(()))));
    assert!(job.finished);
}

#[test]
fn first_run_generates_a_uuid_device_id() {
    let c = AppConfig::first_run();
    assert_eq!(c.device_id.len(), 36);
    assert!(c.repo_url.is_none());
    let chars: Vec<char> = c.device_id.chars().collect();
    assert_eq!(chars[8], '-');
    assert_eq!(chars[14], '4');
    assert_ne!(AppConfig::first_run().device_id, c.device_id);
    let c = c.with_repo_url(Some("git@github.com:me/ai-sessions.git".into()));
    assert_eq!(c.repo_url.as_deref(), Some("git@github.com:me/ai-sessions.git"));
}

#[test]
fn update_meta_pulls_writes_then_publishes() {
    let engine = SyncEngine::connect(GitRepo { dir: "/m".into() });
    let meta = sample_meta("2026-07-05T10:30:00.000Z");
    let (mut job, step) = engine.update_meta(&meta);
    match &step {
        UpdateStep::Git(g) => assert_eq!(run_args(g), vec!["pull", "--rebase", "origin", "main"]),
        _ => panic!("expected a pull"),
    }
    let step = job.resume(Err(GitError { message: "fatal: couldn't find remote ref main".into() }));
    assert!(matches!(step, UpdateStep::WriteMeta));
    let step = job.resume(Ok(String::new()));
    match &step {
        UpdateStep::Git(g) => assert_eq!(run_args(g), vec!["add", "-A"]),
        _ => panic!("expected add"),
    }
    job.resume(Ok(String::new()));
    let step = job.resume(Ok(" M sessions/s-1/meta.json\n".into()));
    match &step {
        UpdateStep::Git(g) => assert_eq!(run_args(g), vec!["commit", "-m", "meta: update s-1"]),
        _ => panic!("expected commit"),
    }
    job.resume(Ok(String::new()));
    let step = job.resume(Ok(String::new()));
    assert!(matches!(step, UpdateStep::Git(GitStep::Done(Ok(())))));
    assert_eq!(job.stage, UpdateStage::Finished);
}

#[test]
fn update_meta_stops_when_the_write_fails() {
    let engine = SyncEngine::connect(GitRepo { dir: "/m".into() });
    let (mut job, _) = engine.update_meta(&sample_meta("x"));
    job.resume(Ok(String::new()));
    match job.resume(Err(GitError { message: "disk full".into() })) {
        UpdateStep::Git(GitStep::Done(Err(e))) => assert_eq!(e.message, "disk full"),
        _ => panic!("expected failure"),
    }
}

fn files(local: &[u8], stored: Option<&[u8]>, existing: Option<SessionMeta>) -> ai_session_manager::sync::SessionFiles {
    ai_session_manager::sync::SessionFiles {
        local: Ok(local.to_vec()),
        stored: stored.map(|b| b.to_vec()),
        existing,
    }
}

#[test]
fn upload_counts_written_sessions_and_commits_once() {
    let engine = SyncEngine::connect(GitRepo { dir: "/m".into() });
    let (mut job, step) = engine.upload(vec![sample_summary(), sample_summary()], "dev-a", "2026-07-05T10:00:00.000Z");
    match &step {
        UploadStep::Git(g) => assert_eq!(run_args(g), vec!["pull", "--rebase", "origin", "main"]),
        _ => panic!("expected a pull"),
    }
    assert!(matches!(job.resume(Ok(String::new())), UploadStep::Inspect(0)));
    match job.inspect(files(b"x", None, None)) {
        UploadStep::Apply(0, UploadAction::Add(m)) => assert_eq!(m.title, "帮我修 bug"),
        other => panic!("unexpected {:?}", other),
    }
    assert!(matches!(job.resume(Ok(String::new())), UploadStep::Inspect(1)));
    let step = job.inspect(files(b"x", Some(b"x"), Some(sample_meta("t"))));
    match &step {
        UploadStep::Git(g) => assert_eq!(run_args(g), vec!["add", "-A"]),
        other => panic!("unexpected {:?}", other),
    }
    assert_eq!(job.written, 1);
    job.resume(Ok(String::new()));
    match job.resume(Ok("A sessions/s-1/meta.json\n".into())) {
        UploadStep::Git(g) => assert_eq!(run_args(&g), vec!["commit", "-m", "sync: upload 1 session(s) from dev-a"]),
        other => panic!("unexpected {:?}", other),
    }
    job.resume(Ok(String::new()));
    assert!(matches!(job.resume(Ok(String::new())), UploadStep::Git(GitStep::Done(Ok(1)))));
}

#[test]
fn upload_of_nothing_new_writes_nothing() {
    let engine = SyncEngine::connect(GitRepo { dir: "/m".into() });
    let (mut job, _) = engine.upload(vec![sample_summary()], "dev-a", "now");
    job.resume(Ok(String::new()));
    let step = job.inspect(files(b"x", Some(b"x"), Some(sample_meta("t"))));
    assert!(matches!(step, UploadStep::Git(GitStep::Done(Ok(0)))));
    let (mut job, _) = engine.upload(vec![], "dev-a", "now");
    assert!(matches!(job.resume(Ok(String::new())), UploadStep::Git(GitStep::Done(Ok(0)))));
}

#[test]
fn upload_stops_at_an_unreadable_transcript() {
    let engine = SyncEngine::connect(GitRepo { dir: "/m".into() });
    let (mut job, _) = engine.upload(vec![sample_summary()], "dev-a", "now");
    job.resume(Ok(String::new()));
    let bad = ai_session_manager::sync::SessionFiles {
        local: Err(GitError { message: "read /tmp/orig.jsonl".into() }),
        stored: None,
        existing: None,
    };
    match job.inspect(bad) {
        UploadStep::Git(GitStep::Done(Err(e))) => assert_eq!(e.message, "read /tmp/orig.jsonl"),
        other => panic!("unexpected {:?}", other),
    }
}
