//! The git conversations the sync mirror needs. Each operation is a small
//! state machine: it names the next git invocation (or directory to create),
//! the caller runs it and hands back the outcome, until the operation is done.
use vstd::prelude::*;

use crate::text::{contains, occurs_in, owned, owned_all, str_eq, trim, trimmed, trims_to_empty, is_blank, views};

verus! {

broadcast use vstd::string::group_string_axioms;

/// A failed git invocation (or setup step), with the text describing it.
#[derive(Debug)]
pub struct GitError {
    pub message: String,
}

/// A working copy of the sync repository.
#[derive(Debug)]
pub struct GitRepo {
    pub dir: String,
}

/// What an operation needs next, or how it ended.
#[derive(Debug)]
pub enum GitStep<T> {
    /// Run git in `dir` with `args` and report the outcome: its standard
    /// output, or the error.
    Run { dir: String, args: Vec<String> },
    /// Create `dir` and its parents, and report the outcome.
    CreateDir { dir: String },
    /// The operation is over.
    Done(Result<T, GitError>),
}

/// `step` asks to run git in `dir` with exactly `args`.
pub open spec fn runs<T>(step: GitStep<T>, dir: Seq<char>, args: Seq<Seq<char>>) -> bool {
    match step {
        GitStep::Run { dir: d, args: a } => d@ == dir && views(a@) == args,
        _ => false,
    }
}

/// The options every git invocation starts with: the commit identity.
pub open spec fn identity_args() -> Seq<Seq<char>> {
    seq!["-c"@, "user.email=ai-session-manager@local"@, "-c"@, "user.name=ai-session-manager"@]
}

/// The full argument list of a git invocation: the identity options, then
/// `args`.
pub fn git_invocation(args: &Vec<String>) -> (r: Vec<String>)
    ensures
        views(r@) == identity_args() + views(args@),
{
    let mut r = owned_all(&["-c", "user.email=ai-session-manager@local", "-c", "user.name=ai-session-manager"]);
    assert(views(r@) =~= identity_args());
    let mut i: usize = 0;
    while i < args.len()
        invariant
            i <= args@.len(),
            views(r@) == identity_args() + views(args@).take(i as int),
        decreases args@.len() - i,
    {
        let ghost v0 = views(r@);
        r.push(args[i].clone());
        assert(views(r@) =~= v0.push(args@[i as int]@));
        assert(views(args@).take(i + 1) =~= views(args@).take(i as int).push(args@[i as int]@));
        i = i + 1;
    }
    assert(views(args@).take(i as int) =~= views(args@));
    r
}

/// `git add -A`
pub open spec fn add_args() -> Seq<Seq<char>> {
    seq!["add"@, "-A"@]
}

/// `git status --porcelain`
pub open spec fn status_args() -> Seq<Seq<char>> {
    seq!["status"@, "--porcelain"@]
}

/// `git commit -m <message>`
pub open spec fn commit_args(message: Seq<char>) -> Seq<Seq<char>> {
    seq!["commit"@, "-m"@, message]
}

/// `git push -u origin main`
pub open spec fn push_args() -> Seq<Seq<char>> {
    seq!["push"@, "-u"@, "origin"@, "main"@]
}

/// `git pull --rebase origin main`
pub open spec fn pull_args() -> Seq<Seq<char>> {
    seq!["pull"@, "--rebase"@, "origin"@, "main"@]
}

/// Where a commit-everything operation stands.
#[derive(Debug, Clone, Copy, PartialEq, Eq, Structural)]
pub enum CommitStage {
    Adding,
    CheckingStatus,
    Committing,
    Finished,
}

/// Stages everything, and commits it with `message` unless nothing changed.
/// Ends with whether a commit was made.
#[derive(Debug)]
pub struct CommitAll {
    pub dir: String,
    pub message: String,
    pub stage: CommitStage,
}

fn run2<T>(dir: &String, a: &str, b: &str) -> (r: GitStep<T>)
    ensures
        runs(r, dir@, seq![a@, b@]),
{
    let args = owned_all(&[a, b]);
    assert(views(args@) =~= seq![a@, b@]);
    GitStep::Run { dir: dir.clone(), args }
}

fn run4<T>(dir: &String, a: &str, b: &str, c: &str, d: &str) -> (r: GitStep<T>)
    ensures
        runs(r, dir@, seq![a@, b@, c@, d@]),
{
    let args = owned_all(&[a, b, c, d]);
    assert(views(args@) =~= seq![a@, b@, c@, d@]);
    GitStep::Run { dir: dir.clone(), args }
}

impl GitRepo {
    /// Starts committing every change in the working copy: first `git add -A`.
    pub fn commit_all(&self, message: &str) -> (r: (CommitAll, GitStep<bool>))
        ensures
            r.0.dir@ == self.dir@,
            r.0.message@ == message@,
            r.0.stage == CommitStage::Adding,
            runs(r.1, self.dir@, add_args()),
    {
        let step = run2(&self.dir, "add", "-A");
        (CommitAll { dir: self.dir.clone(), message: owned(message), stage: CommitStage::Adding }, step)
    }

    /// Pushes `main` to `origin`, setting the upstream: one invocation.
    pub fn push(&self) -> (r: GitStep<()>)
        ensures
            runs(r, self.dir@, push_args()),
    {
        run4(&self.dir, "push", "-u", "origin", "main")
    }

    /// Pulls `main` from `origin` with rebase: one invocation, whose outcome
    /// `pull_rebase_outcome` reads.
    pub fn pull_rebase(&self) -> (r: GitStep<()>)
        ensures
            runs(r, self.dir@, pull_args()),
    {
        run4(&self.dir, "pull", "--rebase", "origin", "main")
    }
}

impl CommitAll {
    /// Takes the outcome of the step just run and names the next one: after
    /// `add`, `status`; after a `status` that prints nothing but white space,
    /// done without a commit; after any other `status`, `commit -m message`;
    /// after `commit`, done with a commit. A failed step ends the operation
    /// with its error.
    pub fn resume(&mut self, outcome: Result<String, GitError>) -> (r: GitStep<bool>)
        requires
            old(self).stage != CommitStage::Finished,
        ensures
            final(self).dir == old(self).dir,
            final(self).message == old(self).message,
            outcome is Err ==> final(self).stage == CommitStage::Finished,
            outcome is Err ==> (r matches GitStep::Done(Err(x)) && x == outcome->Err_0),
            outcome is Ok && old(self).stage == CommitStage::Adding ==> final(self).stage
                == CommitStage::CheckingStatus && runs(r, old(self).dir@, status_args()),
            outcome is Ok && old(self).stage == CommitStage::CheckingStatus && is_blank(
                outcome->Ok_0@,
            ) ==> final(self).stage == CommitStage::Finished && r == GitStep::<bool>::Done(
                Ok(false),
            ),
            outcome is Ok && old(self).stage == CommitStage::CheckingStatus && !is_blank(
                outcome->Ok_0@,
            ) ==> final(self).stage == CommitStage::Committing && runs(
                r,
                old(self).dir@,
                commit_args(old(self).message@),
            ),
            outcome is Ok && old(self).stage == CommitStage::Committing ==> final(self).stage
                == CommitStage::Finished && r == GitStep::<bool>::Done(Ok(true)),
    {
        match outcome {
            Err(e) => {
                self.stage = CommitStage::Finished;
                GitStep::Done(Err(e))
            },
            Ok(out) => match self.stage {
                CommitStage::Adding => {
                    self.stage = CommitStage::CheckingStatus;
                    run2(&self.dir, "status", "--porcelain")
                },
                CommitStage::CheckingStatus => {
                    if trims_to_empty(out.as_str()) {
                        self.stage = CommitStage::Finished;
                        GitStep::Done(Ok(false))
                    } else {
                        self.stage = CommitStage::Committing;
                        let mut args: Vec<String> = Vec::new();
                        args.push(owned("commit"));
                        args.push(owned("-m"));
                        let ghost a0 = views(args@);
                        assert(a0 =~= seq!["commit"@, "-m"@]);
                        args.push(self.message.clone());
                        assert(views(args@) =~= a0.push(self.message@));
                        assert(views(args@) =~= commit_args(self.message@));
                        let r = GitStep::Run { dir: self.dir.clone(), args };
                        assert(runs(r, self.dir@, commit_args(self.message@)));
                        r
                    }
                },
                _ => {
                    self.stage = CommitStage::Finished;
                    GitStep::Done(Ok(true))
                },
            },
        }
    }
}

/// The text git prints when the remote has no `main` yet.
pub open spec fn missing_remote_ref() -> Seq<char> {
    "couldn't find remote ref"@
}

/// A pull counts as done when git succeeded, or failed only because the
/// remote branch does not exist yet (an empty remote).
pub open spec fn pull_succeeds(outcome: Result<String, GitError>) -> bool {
    match outcome {
        Ok(_) => true,
        Err(e) => occurs_in(missing_remote_ref(), e.message@),
    }
}

/// A pull succeeds when git succeeds, and also when it failed only because
/// the remote branch does not exist yet (an empty remote).
pub fn pull_rebase_outcome(outcome: Result<String, GitError>) -> (r: Result<(), GitError>)
    ensures
        match outcome {
            Ok(_) => r is Ok,
            Err(e) => if occurs_in(missing_remote_ref(), e.message@) {
                r is Ok
            } else {
                r == Err::<(), GitError>(e)
            },
        },
{
    match outcome {
        Ok(_) => Ok(()),
        Err(e) => {
            if contains(e.message.as_str(), "couldn't find remote ref") {
                Ok(())
            } else {
                Err(e)
            }
        },
    }
}

/// A push ends with git's outcome.
pub fn push_outcome(outcome: Result<String, GitError>) -> (r: Result<(), GitError>)
    ensures
        match outcome {
            Ok(_) => r is Ok,
            Err(e) => r == Err::<(), GitError>(e),
        },
{
    match outcome {
        Ok(_) => Ok(()),
        Err(e) => Err(e),
    }
}

/// `git remote get-url origin`
pub open spec fn get_url_args() -> Seq<Seq<char>> {
    seq!["remote"@, "get-url"@, "origin"@]
}

/// `git remote set-url origin <url>`
pub open spec fn set_url_args(url: Seq<char>) -> Seq<Seq<char>> {
    seq!["remote"@, "set-url"@, "origin"@, url]
}

/// `git remote add origin <url>`
pub open spec fn add_remote_args(url: Seq<char>) -> Seq<Seq<char>> {
    seq!["remote"@, "add"@, "origin"@, url]
}

/// `git clone <url> <name>`
pub open spec fn clone_args(url: Seq<char>, name: Seq<char>) -> Seq<Seq<char>> {
    seq!["clone"@, url, name]
}

/// `git checkout -B main`
pub open spec fn checkout_args() -> Seq<Seq<char>> {
    seq!["checkout"@, "-B"@, "main"@]
}

/// Where the mirror should live, as the file system shows it.
#[derive(Debug)]
pub struct CloneTarget {
    /// The mirror directory.
    pub dest: String,
    /// Whether `dest/.git` exists.
    pub has_git_dir: bool,
    /// The directory that holds `dest`, if it has one.
    pub parent: Option<String>,
    /// The final component of `dest`, if it has one.
    pub name: Option<String>,
}

/// Where a set-up-the-mirror operation stands.
#[derive(Debug, Clone, Copy, PartialEq, Eq, Structural)]
pub enum CloneStage {
    ReadingOrigin,
    SettingOrigin,
    AddingOrigin,
    CreatingParent,
    Cloning,
    CheckingOut,
    Finished,
}

/// Makes `dest` a working copy of `url`: an existing one has its `origin`
/// pointed at `url`; otherwise `url` is cloned there and `main` checked out.
#[derive(Debug)]
pub struct EnsureClone {
    pub url: String,
    pub dest: String,
    pub parent: String,
    pub name: Option<String>,
    pub stage: CloneStage,
}

fn run3<T>(dir: &String, a: &str, b: &str, c: &str) -> (r: GitStep<T>)
    ensures
        runs(r, dir@, seq![a@, b@, c@]),
{
    let args = owned_all(&[a, b, c]);
    assert(views(args@) =~= seq![a@, b@, c@]);
    GitStep::Run { dir: dir.clone(), args }
}

fn error_step<T>(message: &str) -> (r: GitStep<T>)
    ensures
        r matches GitStep::Done(Err(e)) && e.message@ == message@,
{
    GitStep::Done(Err(GitError { message: owned(message) }))
}

fn repo_at(dir: &String) -> (r: GitStep<GitRepo>)
    ensures
        r matches GitStep::Done(Ok(g)) && g.dir@ == dir@,
{
    GitStep::Done(Ok(GitRepo { dir: dir.clone() }))
}

impl GitRepo {
    /// Starts setting up the mirror at `target.dest` for `url`: an existing
    /// working copy is asked for its `origin`; otherwise the parent directory
    /// is created first (failing when `dest` has no parent).
    pub fn ensure_clone(url: &str, target: &CloneTarget) -> (r: (EnsureClone, GitStep<GitRepo>))
        ensures
            r.0.url@ == url@,
            r.0.dest@ == target.dest@,
            r.0.name == target.name,
            target.has_git_dir ==> r.0.stage == CloneStage::ReadingOrigin && runs(
                r.1,
                target.dest@,
                get_url_args(),
            ),
            !target.has_git_dir && target.parent is None ==> r.0.stage == CloneStage::Finished
                && (r.1 matches GitStep::Done(Err(e)) && e.message@ == "dest has no parent"@),
            !target.has_git_dir && target.parent is Some ==> r.0.stage
                == CloneStage::CreatingParent && r.0.parent@ == target.parent->0@ && (
            r.1 matches GitStep::CreateDir { dir } && dir@ == target.parent->0@),
    {
        let mut job = EnsureClone {
            url: owned(url),
            dest: target.dest.clone(),
            parent: String::new(),
            name: match &target.name {
                Some(n) => Some(n.clone()),
                None => None,
            },
            stage: CloneStage::Finished,
        };
        if target.has_git_dir {
            job.stage = CloneStage::ReadingOrigin;
            let step = run3(&target.dest, "remote", "get-url", "origin");
            return (job, step);
        }
        match &target.parent {
            None => (job, error_step("dest has no parent")),
            Some(p) => {
                job.parent = p.clone();
                job.stage = CloneStage::CreatingParent;
                (job, GitStep::CreateDir { dir: p.clone() })
            },
        }
    }
}

impl EnsureClone {
    /// Takes the outcome of the step just run and names the next one. When
    /// `origin` was read: a different URL (after trimming white space) is
    /// replaced, the same URL finishes; when reading it failed, `origin` is
    /// added. After the parent directory is made, `url` is cloned into it
    /// under `dest`'s name (failing when `dest` has none); after cloning,
    /// `main` is checked out, and whatever that gives, the mirror is done.
    /// Any other failed step ends the operation with its error.
    pub fn resume(&mut self, outcome: Result<String, GitError>) -> (r: GitStep<GitRepo>)
        requires
            old(self).stage != CloneStage::Finished,
        ensures
            final(self).url == old(self).url,
            final(self).dest == old(self).dest,
            final(self).parent == old(self).parent,
            final(self).name == old(self).name,
            old(self).stage == CloneStage::ReadingOrigin ==> match outcome {
                Ok(existing) => if trimmed(existing@) != old(self).url@ {
                    final(self).stage == CloneStage::SettingOrigin && runs(
                        r,
                        old(self).dest@,
                        set_url_args(old(self).url@),
                    )
                } else {
                    final(self).stage == CloneStage::Finished && (r matches GitStep::Done(Ok(g))
                        && g.dir@ == old(self).dest@)
                },
                Err(_) => final(self).stage == CloneStage::AddingOrigin && runs(
                    r,
                    old(self).dest@,
                    add_remote_args(old(self).url@),
                ),
            },
            (old(self).stage == CloneStage::SettingOrigin || old(self).stage
                == CloneStage::AddingOrigin || old(self).stage == CloneStage::CheckingOut) ==> {
                &&& final(self).stage == CloneStage::Finished
                &&& (outcome is Ok || old(self).stage == CloneStage::CheckingOut) ==> (
                r matches GitStep::Done(Ok(g)) && g.dir@ == old(self).dest@)
                &&& (outcome is Err && old(self).stage != CloneStage::CheckingOut) ==> (
                r matches GitStep::Done(Err(e)) && e == outcome->Err_0)
            },
            old(self).stage == CloneStage::CreatingParent ==> match outcome {
                Ok(_) => match old(self).name {
                    Some(n) => final(self).stage == CloneStage::Cloning && runs(
                        r,
                        old(self).parent@,
                        clone_args(old(self).url@, n@),
                    ),
                    None => final(self).stage == CloneStage::Finished && (r matches GitStep::Done(
                        Err(e),
                    ) && e.message@ == "bad dest"@),
                },
                Err(e) => final(self).stage == CloneStage::Finished && (r matches GitStep::Done(
                    Err(x),
                ) && x == e),
            },
            old(self).stage == CloneStage::Cloning ==> match outcome {
                Ok(_) => final(self).stage == CloneStage::CheckingOut && runs(
                    r,
                    old(self).dest@,
                    checkout_args(),
                ),
                Err(e) => final(self).stage == CloneStage::Finished && (r matches GitStep::Done(
                    Err(x),
                ) && x == e),
            },
    {
        let stage = self.stage;
        match stage {
            CloneStage::ReadingOrigin => match outcome {
                Ok(existing) => {
                    let t = trim(existing.as_str());
                    if !str_eq(t.as_str(), self.url.as_str()) {
                        self.stage = CloneStage::SettingOrigin;
                        let mut args = owned_all(&["remote", "set-url", "origin"]);
                        let ghost a0 = views(args@);
                        assert(a0 =~= seq!["remote"@, "set-url"@, "origin"@]);
                        args.push(self.url.clone());
                        assert(views(args@) =~= set_url_args(self.url@));
                        let r = GitStep::Run { dir: self.dest.clone(), args };
                        assert(runs(r, self.dest@, set_url_args(self.url@)));
                        r
                    } else {
                        self.stage = CloneStage::Finished;
                        repo_at(&self.dest)
                    }
                },
                Err(_) => {
                    self.stage = CloneStage::AddingOrigin;
                    let mut args = owned_all(&["remote", "add", "origin"]);
                    let ghost a0 = views(args@);
                    assert(a0 =~= seq!["remote"@, "add"@, "origin"@]);
                    args.push(self.url.clone());
                    assert(views(args@) =~= add_remote_args(self.url@));
                    let r = GitStep::Run { dir: self.dest.clone(), args };
                    assert(runs(r, self.dest@, add_remote_args(self.url@)));
                    r
                },
            },
            CloneStage::SettingOrigin | CloneStage::AddingOrigin => {
                self.stage = CloneStage::Finished;
                match outcome {
                    Ok(_) => repo_at(&self.dest),
                    Err(e) => GitStep::Done(Err(e)),
                }
            },
            CloneStage::CheckingOut => {
                self.stage = CloneStage::Finished;
                repo_at(&self.dest)
            },
            CloneStage::CreatingParent => match outcome {
                Ok(_) => match &self.name {
                    Some(n) => {
                        self.stage = CloneStage::Cloning;
                        let mut args: Vec<String> = Vec::new();
                        args.push(owned("clone"));
                        args.push(self.url.clone());
                        args.push(n.clone());
                        assert(views(args@) =~= clone_args(self.url@, n@));
                        let r = GitStep::Run { dir: self.parent.clone(), args };
                        assert(runs(r, self.parent@, clone_args(self.url@, n@)));
                        r
                    },
                    None => {
                        self.stage = CloneStage::Finished;
                        error_step("bad dest")
                    },
                },
                Err(e) => {
                    self.stage = CloneStage::Finished;
                    GitStep::Done(Err(e))
                },
            },
            CloneStage::Cloning => match outcome {
                Ok(_) => {
                    self.stage = CloneStage::CheckingOut;
                    run3(&self.dest, "checkout", "-B", "main")
                },
                Err(e) => {
                    self.stage = CloneStage::Finished;
                    GitStep::Done(Err(e))
                },
            },
            CloneStage::Finished => {
                self.stage = CloneStage::Finished;
                error_step("the operation has already finished")
            },
        }
    }
}

/// Commits every change and, when a commit was made, pushes it.
#[derive(Debug)]
pub struct CommitAndPush {
    pub commit: CommitAll,
    pub pushing: bool,
    pub finished: bool,
}

/// Starts committing every change in `repo` with `message`, to be pushed
/// when a commit results.
pub fn commit_and_push(repo: &GitRepo, message: &str) -> (r: (CommitAndPush, GitStep<()>))
    ensures
        r.0.commit.dir@ == repo.dir@,
        r.0.commit.message@ == message@,
        r.0.commit.stage == CommitStage::Adding,
        !r.0.pushing,
        !r.0.finished,
        runs(r.1, repo.dir@, add_args()),
{
    let (commit, step) = repo.commit_all(message);
    let r = match step {
        GitStep::Run { dir, args } => GitStep::Run { dir, args },
        GitStep::CreateDir { dir } => GitStep::CreateDir { dir },
        GitStep::Done(_) => GitStep::Done(Ok(())),
    };
    (CommitAndPush { commit, pushing: false, finished: false }, r)
}

/// One step of a commit-and-push: `before` took `outcome` and became
/// `after`, naming `r` next. While pushing, the push's outcome ends it;
/// otherwise the commit advances as `CommitAll::resume` says, a commit
/// that was made leads to `git push -u origin main`, and no commit or a
/// failure ends it.
pub open spec fn commit_push_resumed(
    before: CommitAndPush,
    outcome: Result<String, GitError>,
    after: CommitAndPush,
    r: GitStep<()>,
) -> bool {
    &&& after.commit.dir == before.commit.dir
    &&& after.commit.message == before.commit.message
    &&& before.pushing ==> after.finished && after.commit.stage == before.commit.stage && match outcome {
        Ok(_) => r matches GitStep::Done(Ok(_)),
        Err(e) => r matches GitStep::Done(Err(x)) && x == e,
    }
    &&& !before.pushing ==> {
        &&& after.commit.stage == CommitStage::Finished <==> (after.pushing || after.finished)
        &&& !after.finished ==> r is Run
        &&& (outcome is Err ==> after.finished && (r matches GitStep::Done(Err(x)) && x
            == outcome->Err_0))
        &&& (outcome is Ok && before.commit.stage == CommitStage::Committing) ==> (after.pushing
            && !after.finished && runs(r, before.commit.dir@, push_args()))
        &&& (outcome is Ok && before.commit.stage == CommitStage::CheckingStatus && is_blank(
            outcome->Ok_0@,
        )) ==> (after.finished && r matches GitStep::Done(Ok(_)))
        &&& (outcome is Ok && before.commit.stage == CommitStage::CheckingStatus && !is_blank(
            outcome->Ok_0@,
        )) ==> (!after.finished && !after.pushing && after.commit.stage
            == CommitStage::Committing && runs(
            r,
            before.commit.dir@,
            commit_args(before.commit.message@),
        ))
        &&& (outcome is Ok && before.commit.stage == CommitStage::Adding) ==> (!after.finished
            && !after.pushing && after.commit.stage == CommitStage::CheckingStatus && runs(
            r,
            before.commit.dir@,
            status_args(),
        ))
    }
}

impl CommitAndPush {
    /// Takes the outcome of the step just run and names the next one: the
    /// commit's own steps while it runs; a push after a commit was made;
    /// done when nothing was committed or the push has run. A failure ends
    /// the operation with its error.
    pub fn resume(&mut self, outcome: Result<String, GitError>) -> (r: GitStep<()>)
        requires
            !old(self).finished,
            !old(self).pushing ==> old(self).commit.stage != CommitStage::Finished,
        ensures
            commit_push_resumed(*old(self), outcome, *final(self), r),
    {
        if self.pushing {
            self.finished = true;
            return match push_outcome(outcome) {
                Ok(()) => GitStep::Done(Ok(())),
                Err(e) => GitStep::Done(Err(e)),
            };
        }
        let step = self.commit.resume(outcome);
        match step {
            GitStep::Run { dir, args } => GitStep::Run { dir, args },
            GitStep::CreateDir { dir } => GitStep::CreateDir { dir },
            GitStep::Done(Ok(true)) => {
                self.pushing = true;
                run4(&self.commit.dir, "push", "-u", "origin", "main")
            },
            GitStep::Done(Ok(false)) => {
                self.finished = true;
                GitStep::Done(Ok(()))
            },
            GitStep::Done(Err(e)) => {
                self.finished = true;
                GitStep::Done(Err(e))
            },
        }
    }
}

} // verus!
