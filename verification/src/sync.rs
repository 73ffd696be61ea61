//! The sync engine: the mirror's working copy and the sync repository in it,
//! and the decisions an upload makes for each session.
use vstd::prelude::*;

use crate::gitcli::{
    add_args, commit_and_push, commit_push_resumed, pull_args, pull_rebase_outcome, runs,
    missing_remote_ref, pull_succeeds, CommitAndPush, CommitStage, GitError, GitRepo, GitStep,
};
use crate::text::occurs_in;
use crate::model::{initial_meta, MetaView, SessionMeta, SessionSummary, SummaryView};
use crate::syncrepo::{write_wins, SyncRepo};
use crate::text::{append_str, count_where, decimal, lemma_count_where_bound, owned, push_decimal, str_lt};

verus! {

broadcast use vstd::string::group_string_axioms;

/// The mirror's working copy and the sync repository it holds.
#[derive(Debug)]
pub struct SyncEngine {
    pub git: GitRepo,
    pub repo: SyncRepo,
}

impl SyncEngine {
    /// The engine over a mirror that `GitRepo::ensure_clone` has set up: the
    /// sync repository is rooted at the working copy.
    pub fn connect(git: GitRepo) -> (r: SyncEngine)
        ensures
            r.git.dir@ == git.dir@,
            r.repo.root@ == git.dir@,
    {
        let root = git.dir.clone();
        SyncEngine { git, repo: SyncRepo { root } }
    }

    /// The sync repository.
    pub fn repo(&self) -> (r: &SyncRepo)
        ensures
            r == &self.repo,
    {
        &self.repo
    }

    /// Brings the mirror up to date: a `pull --rebase` of `main`, whose
    /// outcome `gitcli::pull_rebase_outcome` reads.
    pub fn refresh(&self) -> (r: GitStep<()>)
        ensures
            runs(r, self.git.dir@, pull_args()),
    {
        self.git.pull_rebase()
    }

    /// Commits every change with `message` and pushes when a commit results.
    pub fn commit_and_push(&self, message: &str) -> (r: (CommitAndPush, GitStep<()>))
        ensures
            r.0.commit.dir@ == self.git.dir@,
            r.0.commit.message@ == message@,
            r.0.commit.stage == CommitStage::Adding,
            !r.0.pushing,
            !r.0.finished,
            runs(r.1, self.git.dir@, add_args()),
    {
        commit_and_push(&self.git, message)
    }
}

/// The commit message of an upload: `sync: upload <n> session(s) from <device>`.
pub open spec fn upload_message_text(written: nat, device_id: Seq<char>) -> Seq<char> {
    "sync: upload "@ + decimal(written) + " session(s) from "@ + device_id
}

/// The commit message of an upload.
pub fn upload_message(written: usize, device_id: &str) -> (r: String)
    ensures
        r@ == upload_message_text(written as nat, device_id@),
{
    let mut m = owned("sync: upload ");
    push_decimal(&mut m, written);
    append_str(&mut m, " session(s) from ");
    append_str(&mut m, device_id);
    m
}

/// The commit message of a metadata edit: `meta: update <id>`.
pub fn update_meta_message(session_id: &str) -> (r: String)
    ensures
        r@ == "meta: update "@ + session_id@,
{
    let mut m = owned("meta: update ");
    append_str(&mut m, session_id);
    m
}

/// What an upload does with one selected session.
#[derive(Debug)]
pub enum UploadAction {
    /// The repository already has this transcript and its metadata.
    Skip,
    /// First upload: copy the transcript and record `meta`.
    Add(SessionMeta),
    /// The transcript changed: store it again, and write `meta` (the stored
    /// metadata with fresh activity times) when `write_meta` says it wins.
    Refresh { meta: SessionMeta, write_meta: bool },
}

/// The stored metadata after a re-upload: every edit kept, only the last
/// activity and the edit time renewed.
pub open spec fn refreshed(stored: MetaView, s: SummaryView, now: Seq<char>) -> MetaView {
    MetaView { last_active_at: s.last_active_at, updated_at: now, ..stored }
}

/// The repository's copy of the transcript is byte for byte the local one.
pub open spec fn same_transcript(local: Seq<u8>, stored: Option<Seq<u8>>) -> bool {
    stored == Some(local)
}

fn bytes_eq(a: &[u8], b: &[u8]) -> (r: bool)
    ensures
        r == (a@ == b@),
{
    if a.len() != b.len() {
        return false;
    }
    let mut i: usize = 0;
    while i < a.len()
        invariant
            a@.len() == b@.len(),
            i <= a@.len(),
            forall|j: int| 0 <= j < i ==> a@[j] == b@[j],
        decreases a@.len() - i,
    {
        if a[i] != b[i] {
            return false;
        }
        i = i + 1;
    }
    assert(a@ =~= b@);
    true
}

/// What uploading a session does: a session without readable stored
/// metadata is added with its initial metadata; one whose stored transcript
/// is byte for byte the local one is skipped; any other is refreshed, its
/// metadata written only when it wins over the stored copy.
pub open spec fn upload_decided(
    s: SummaryView,
    local: Seq<u8>,
    stored: Option<Seq<u8>>,
    existing: Option<MetaView>,
    device_id: Seq<char>,
    now: Seq<char>,
    r: UploadAction,
) -> bool {
    match existing {
        None => r matches UploadAction::Add(m) && m@ == initial_meta(s, device_id, now),
        Some(e) => if same_transcript(local, stored) {
            r is Skip
        } else {
            r matches UploadAction::Refresh { meta, write_meta } && meta@ == refreshed(e, s, now)
                && write_meta == write_wins(Some(e), meta@)
        },
    }
}

/// Decides what uploading `s` does, given its local transcript bytes, the
/// repository's copy of the transcript (`None` when missing or unreadable)
/// and the stored metadata (`None` when missing or unreadable).
pub fn upload_action(
    s: &SessionSummary,
    local: &[u8],
    stored: Option<&[u8]>,
    existing: Option<SessionMeta>,
    device_id: &str,
    now_iso: &str,
) -> (r: UploadAction)
    ensures
        upload_decided(
            s@,
            local@,
            match stored {
                Some(b) => Some(b@),
                None => None,
            },
            match existing {
                Some(e) => Some(e@),
                None => None,
            },
            device_id@,
            now_iso@,
            r,
        ),
{
    let unchanged = match stored {
        Some(b) => bytes_eq(b, local),
        None => false,
    };
    match existing {
        None => UploadAction::Add(SessionMeta::from_summary(s, device_id, now_iso)),
        Some(e) => {
            if unchanged {
                UploadAction::Skip
            } else {
                let wins = str_lt(e.updated_at.as_str(), now_iso);
                let mut meta = e;
                meta.last_active_at = s.last_active_at.clone();
                meta.updated_at = owned(now_iso);
                UploadAction::Refresh { meta, write_meta: wins }
            }
        },
    }
}

/// A re-upload keeps every edit made to the metadata (title, description,
/// tags, star, origin) and renews only the activity and edit times.
pub proof fn lemma_refresh_keeps_edits(stored: MetaView, s: SummaryView, now: Seq<char>)
    ensures
        ({
            let m = refreshed(stored, s, now);
            &&& m.title == stored.title
            &&& m.description == stored.description
            &&& m.tags == stored.tags
            &&& m.starred == stored.starred
            &&& m.session_id == stored.session_id
            &&& m.origin_device_id == stored.origin_device_id
            &&& m.origin_cwd == stored.origin_cwd
            &&& m.last_active_at == s.last_active_at
            &&& m.updated_at == now
        }),
{
}

/// Uploading a session again whose stored transcript holds the same bytes as
/// the local one, and whose metadata is stored, writes nothing.
pub proof fn lemma_unchanged_is_skipped(
    s: SummaryView,
    local: Seq<u8>,
    existing: MetaView,
    device_id: Seq<char>,
    now: Seq<char>,
    a: UploadAction,
)
    requires
        upload_decided(s, local, Some(local), Some(existing), device_id, now, a),
    ensures
        a is Skip,
{
}

/// A run in which no session needed writing counts none.
pub proof fn lemma_nothing_changed_counts_zero(changed: Seq<bool>)
    requires
        forall|i: int| 0 <= i < changed.len() ==> !#[trigger] changed[i],
    ensures
        changed_count(changed) == 0,
    decreases changed.len(),
{
    if changed.len() > 0 {
        let rest = changed.drop_last();
        assert forall|i: int| 0 <= i < rest.len() implies !#[trigger] rest[i] by {
            assert(rest[i] == changed[i]);
        }
        lemma_nothing_changed_counts_zero(rest);
        assert(!changed[changed.len() - 1]);
    }
}

/// The sessions of `all`, in order, whose id is among `ids`.
pub open spec fn selected(all: Seq<SessionSummary>, ids: Seq<Seq<char>>) -> Seq<SessionSummary>
    decreases all.len(),
{
    if all.len() == 0 {
        all
    } else if ids.contains(all.last().session_id@) {
        selected(all.drop_last(), ids).push(all.last())
    } else {
        selected(all.drop_last(), ids)
    }
}

fn id_listed(id: &String, ids: &Vec<String>) -> (r: bool)
    ensures
        r == crate::text::views(ids@).contains(id@),
{
    let mut i: usize = 0;
    while i < ids.len()
        invariant
            i <= ids@.len(),
            forall|j: int| 0 <= j < i ==> ids@[j]@ != id@,
        decreases ids@.len() - i,
    {
        if crate::text::str_eq(ids[i].as_str(), id.as_str()) {
            assert(crate::text::views(ids@)[i as int] == id@);
            return true;
        }
        i = i + 1;
    }
    assert forall|j: int| 0 <= j < ids@.len() implies crate::text::views(ids@)[j] != id@ by {}
    false
}

/// Keeps the sessions whose id the user selected, in their order.
pub fn select_sessions(all: Vec<SessionSummary>, ids: &Vec<String>) -> (r: Vec<SessionSummary>)
    ensures
        r@ == selected(all@, crate::text::views(ids@)),
{
    let ghost orig = all@;
    let mut rest = all;
    let mut out: Vec<SessionSummary> = Vec::new();
    let mut k: usize = 0;
    assert(orig.len() == rest.len());
    while rest.len() > 0
        invariant
            orig.len() <= usize::MAX,
            k <= orig.len(),
            rest@ == orig.skip(k as int),
            out@ == selected(orig.take(k as int), crate::text::views(ids@)),
        decreases rest@.len(),
    {
        let s = rest.remove(0);
        assert(orig.take(k + 1).drop_last() =~= orig.take(k as int));
        assert(orig.skip(k as int)[0] == orig[k as int]);
        assert(rest@ =~= orig.skip(k + 1));
        if id_listed(&s.session_id, ids) {
            out.push(s);
        }
        k = k + 1;
    }
    assert(orig.take(k as int) =~= orig);
    out
}

/// What an edit of a session's metadata needs next.
#[derive(Debug)]
pub enum UpdateStep {
    /// A git step (or the end of the edit).
    Git(GitStep<()>),
    /// Write the edited metadata into the repository (last writer wins) and
    /// report the outcome.
    WriteMeta,
}

/// Where an edit of a session's metadata stands.
#[derive(Debug, Clone, Copy, PartialEq, Eq, Structural)]
pub enum UpdateStage {
    Pulling,
    Writing,
    Publishing,
    Finished,
}

/// Records an edit of a session's metadata: refresh the mirror, write the
/// metadata, then commit `meta: update <id>` and push.
#[derive(Debug)]
pub struct UpdateMeta {
    pub stage: UpdateStage,
    pub publish: CommitAndPush,
}

impl UpdateMeta {
    /// The operation can take another outcome.
    pub open spec fn can_resume(&self) -> bool {
        &&& self.stage != UpdateStage::Finished
        &&& !self.publish.finished
        &&& !self.publish.pushing ==> self.publish.commit.stage != CommitStage::Finished
        &&& self.stage != UpdateStage::Publishing ==> !self.publish.pushing
            && self.publish.commit.stage == CommitStage::Adding
    }
}

impl SyncEngine {
    /// Starts recording an edit of `meta`: first the mirror is refreshed.
    pub fn update_meta(&self, meta: &SessionMeta) -> (r: (UpdateMeta, UpdateStep))
        ensures
            r.0.can_resume(),
            r.0.stage == UpdateStage::Pulling,
            r.0.publish.commit.dir@ == self.git.dir@,
            r.0.publish.commit.message@ == "meta: update "@ + meta.session_id@,
            r.1 matches UpdateStep::Git(step) && runs(step, self.git.dir@, pull_args()),
    {
        let message = update_meta_message(meta.session_id.as_str());
        let (publish, _) = commit_and_push(&self.git, message.as_str());
        (UpdateMeta { stage: UpdateStage::Pulling, publish }, UpdateStep::Git(self.refresh()))
    }
}

impl UpdateMeta {
    /// Takes the outcome of the step just performed and names the next one:
    /// after the pull (an empty remote counting as success), the write; after
    /// the write, the commit's first step; then the commit-and-push runs to
    /// its end. A failure ends the edit with its error.
    pub fn resume(&mut self, outcome: Result<String, GitError>) -> (r: UpdateStep)
        requires
            old(self).can_resume(),
        ensures
            final(self).stage != UpdateStage::Finished ==> final(self).can_resume(),
            final(self).publish.commit.dir == old(self).publish.commit.dir,
            final(self).publish.commit.message == old(self).publish.commit.message,
            old(self).stage == UpdateStage::Pulling ==> match outcome {
                Ok(_) => final(self).stage == UpdateStage::Writing && r is WriteMeta,
                Err(e) => if occurs_in(missing_remote_ref(), e.message@) {
                    final(self).stage == UpdateStage::Writing && r is WriteMeta
                } else {
                    final(self).stage == UpdateStage::Finished && (r matches UpdateStep::Git(
                        GitStep::Done(Err(x)),
                    ) && x == e)
                },
            },
            old(self).stage == UpdateStage::Writing ==> match outcome {
                Ok(_) => final(self).stage == UpdateStage::Publishing && final(self).publish
                    == old(self).publish && (r matches UpdateStep::Git(step) && runs(
                    step,
                    old(self).publish.commit.dir@,
                    add_args(),
                )),
                Err(e) => final(self).stage == UpdateStage::Finished && (r matches UpdateStep::Git(
                    GitStep::Done(Err(x)),
                ) && x == e),
            },
            old(self).stage == UpdateStage::Publishing ==> (r matches UpdateStep::Git(step)
                && commit_push_resumed(old(self).publish, outcome, final(self).publish, step) && (
            final(self).stage == UpdateStage::Finished <==> final(self).publish.finished)),
    {
        match self.stage {
            UpdateStage::Pulling => match pull_rebase_outcome(outcome) {
                Ok(()) => {
                    self.stage = UpdateStage::Writing;
                    UpdateStep::WriteMeta
                },
                Err(e) => {
                    self.stage = UpdateStage::Finished;
                    UpdateStep::Git(GitStep::Done(Err(e)))
                },
            },
            UpdateStage::Writing => match outcome {
                Ok(_) => {
                    self.stage = UpdateStage::Publishing;
                    let mut args: Vec<String> = Vec::new();
                    args.push(owned("add"));
                    args.push(owned("-A"));
                    assert(crate::text::views(args@) =~= add_args());
                    let step = GitStep::Run { dir: self.publish.commit.dir.clone(), args };
                    UpdateStep::Git(step)
                },
                Err(e) => {
                    self.stage = UpdateStage::Finished;
                    UpdateStep::Git(GitStep::Done(Err(e)))
                },
            },
            _ => {
                let step = self.publish.resume(outcome);
                if self.publish.finished {
                    self.stage = UpdateStage::Finished;
                }
                UpdateStep::Git(step)
            },
        }
    }
}

/// What the file system holds for one selected session.
#[derive(Debug)]
pub struct SessionFiles {
    /// The local transcript's bytes, or the error reading it.
    pub local: Result<Vec<u8>, GitError>,
    /// The repository's copy of the transcript, when it exists and reads.
    pub stored: Option<Vec<u8>>,
    /// The stored metadata, when it exists and reads.
    pub existing: Option<SessionMeta>,
}

/// What an upload needs next.
#[derive(Debug)]
pub enum UploadStep {
    /// A git step, or the end of the upload with the number of sessions written.
    Git(GitStep<usize>),
    /// Read the files of selected session `i` and hand them to `inspect`.
    Inspect(usize),
    /// Carry out `action` for selected session `i` and report the outcome.
    Apply(usize, UploadAction),
}

/// Where an upload stands.
#[derive(Debug, Clone, Copy, PartialEq, Eq, Structural)]
pub enum UploadStage {
    Pulling,
    Inspecting,
    Applying,
    Publishing,
    Finished,
}

/// How many sessions of a run needed writing.
pub open spec fn changed_count(changed: Seq<bool>) -> nat {
    count_where(changed, |c: bool| c)
}

/// Uploads the selected sessions: refresh the mirror, then for each session
/// in turn decide and carry out what it needs, and when anything was
/// written, commit `sync: upload <n> session(s) from <device>` and push.
pub struct Upload {
    pub stage: UploadStage,
    /// The selected sessions, in the order they are uploaded.
    pub sessions: Vec<SessionSummary>,
    /// For each session inspected so far, whether it needed writing: its
    /// stored transcript differed from the local one or its metadata was
    /// missing.
    pub changed: Ghost<Seq<bool>>,
    /// The session being inspected or applied.
    pub index: usize,
    /// How many sessions were selected.
    pub count: usize,
    /// How many sessions have been written.
    pub written: usize,
    pub device_id: String,
    pub now_iso: String,
    pub git_dir: String,
    pub publish: CommitAndPush,
}

fn map_step(step: GitStep<()>, written: usize) -> (r: GitStep<usize>)
    ensures
        match step {
            GitStep::Run { dir, args } => r == GitStep::<usize>::Run { dir, args },
            GitStep::CreateDir { dir } => r == GitStep::<usize>::CreateDir { dir },
            GitStep::Done(Ok(_)) => r == GitStep::<usize>::Done(Ok(written)),
            GitStep::Done(Err(e)) => r matches GitStep::Done(Err(x)) && x == e,
        },
{
    match step {
        GitStep::Run { dir, args } => GitStep::Run { dir, args },
        GitStep::CreateDir { dir } => GitStep::CreateDir { dir },
        GitStep::Done(Ok(())) => GitStep::Done(Ok(written)),
        GitStep::Done(Err(e)) => GitStep::Done(Err(e)),
    }
}

impl Upload {
    /// The upload can take another outcome of the kind its stage waits for.
    pub open spec fn can_resume(&self) -> bool {
        &&& self.stage != UploadStage::Finished
        &&& self.sessions@.len() == self.count
        &&& self.written <= self.index <= self.count
        &&& self.changed@.len() == if self.stage == UploadStage::Applying {
            self.index + 1
        } else {
            self.index as int
        }
        &&& self.written == changed_count(self.changed@.take(self.index as int))
        &&& self.stage == UploadStage::Applying ==> self.changed@[self.index as int]
        &&& self.stage == UploadStage::Pulling ==> self.index == 0 && self.written == 0
        &&& (self.stage == UploadStage::Inspecting || self.stage == UploadStage::Applying)
            ==> self.index < self.count
        &&& self.stage == UploadStage::Publishing ==> {
            &&& self.index == self.count
            &&& !self.publish.finished
            &&& !self.publish.pushing ==> self.publish.commit.stage != CommitStage::Finished
            &&& self.publish.commit.dir@ == self.git_dir@
            &&& self.publish.commit.message@ == upload_message_text(
                self.written as nat,
                self.device_id@,
            )
        }
    }

    /// The step after session `index` is done: the next session, or, after
    /// the last, the commit when something was written and the end otherwise.
    pub open spec fn advanced(&self, before: Upload, r: UploadStep) -> bool {
        &&& self.index == before.index + 1
        &&& self.index < self.count ==> self.stage == UploadStage::Inspecting && r
            == UploadStep::Inspect(self.index)
        &&& self.index == self.count && self.written > 0 ==> self.stage == UploadStage::Publishing
            && !self.publish.pushing && self.publish.commit.stage == CommitStage::Adding && (r matches UploadStep::Git(step) && runs(step, self.git_dir@, add_args()))
        &&& self.index == self.count && self.written == 0 ==> self.stage == UploadStage::Finished
            && r == UploadStep::Git(GitStep::<usize>::Done(Ok(0)))
    }
}

impl SyncEngine {
    /// Starts uploading the selected `sessions` for `device_id` at `now_iso`:
    /// first the mirror is refreshed.
    pub fn upload(&self, sessions: Vec<SessionSummary>, device_id: &str, now_iso: &str) -> (r: (
        Upload,
        UploadStep,
    ))
        ensures
            r.0.can_resume(),
            r.0.stage == UploadStage::Pulling,
            r.0.sessions@ == sessions@ && r.0.changed@ == Seq::<bool>::empty(),
            r.0.index == 0 && r.0.written == 0 && r.0.count == sessions@.len(),
            r.0.device_id@ == device_id@ && r.0.now_iso@ == now_iso@,
            r.0.git_dir@ == self.git.dir@,
            r.1 matches UploadStep::Git(step) && runs(step, self.git.dir@, pull_args()),
    {
        let (publish, _) = commit_and_push(&self.git, "");
        let pull = match self.refresh() {
            GitStep::Run { dir, args } => GitStep::Run { dir, args },
            GitStep::CreateDir { dir } => GitStep::CreateDir { dir },
            GitStep::Done(_) => GitStep::Done(Ok(0)),
        };
        let count = sessions.len();
        (
            Upload {
                stage: UploadStage::Pulling,
                sessions,
                changed: Ghost(Seq::empty()),
                index: 0,
                count,
                written: 0,
                device_id: owned(device_id),
                now_iso: owned(now_iso),
                git_dir: self.git.dir.clone(),
                publish,
            },
            UploadStep::Git(pull),
        )
    }
}

impl Upload {
    fn next_session(&mut self) -> (r: UploadStep)
        requires
            old(self).index < old(self).count,
            old(self).sessions@.len() == old(self).count,
            old(self).changed@.len() == old(self).index + 1,
            old(self).written == changed_count(old(self).changed@.take(old(self).index + 1)),
        ensures
            final(self).advanced(*old(self), r),
            final(self).written == old(self).written,
            final(self).count == old(self).count,
            final(self).sessions == old(self).sessions,
            final(self).changed == old(self).changed,
            r matches UploadStep::Git(GitStep::Done(Ok(n))) ==> n == changed_count(
                final(self).changed@,
            ),
            final(self).device_id == old(self).device_id,
            final(self).now_iso == old(self).now_iso,
            final(self).git_dir == old(self).git_dir,
            final(self).stage != UploadStage::Finished ==> final(self).can_resume(),
    {
        self.index = self.index + 1;
        proof {
            lemma_count_where_bound(self.changed@, |c: bool| c);
            assert(self.changed@.take(self.index as int) =~= self.changed@);
        }
        if self.index < self.count {
            self.stage = UploadStage::Inspecting;
            UploadStep::Inspect(self.index)
        } else if self.written > 0 {
            let message = upload_message(self.written, self.device_id.as_str());
            let repo = GitRepo { dir: self.git_dir.clone() };
            let (publish, step) = commit_and_push(&repo, message.as_str());
            self.publish = publish;
            self.stage = UploadStage::Publishing;
            UploadStep::Git(map_step(step, self.written))
        } else {
            self.stage = UploadStage::Finished;
            UploadStep::Git(GitStep::Done(Ok(0)))
        }
    }

    /// Takes the outcome of a git step or of carrying out an action, and names
    /// the next step. After the pull (an empty remote counting as success),
    /// the first session is inspected, or with none selected the upload ends
    /// having written nothing. A carried-out action counts as written and the
    /// upload moves on; during the commit-and-push the upload follows it and
    /// ends with the count. A failure ends the upload with its error.
    pub fn resume(&mut self, outcome: Result<String, GitError>) -> (r: UploadStep)
        requires
            old(self).can_resume(),
            old(self).stage != UploadStage::Inspecting,
        ensures
            final(self).stage != UploadStage::Finished ==> final(self).can_resume(),
            final(self).count == old(self).count,
            final(self).sessions == old(self).sessions,
            final(self).changed == old(self).changed,
            final(self).device_id == old(self).device_id,
            final(self).now_iso == old(self).now_iso,
            final(self).git_dir == old(self).git_dir,
            r matches UploadStep::Git(GitStep::Done(Ok(n))) ==> n == changed_count(
                final(self).changed@,
            ) && final(self).changed@.len() == final(self).count,
            outcome is Err && old(self).stage == UploadStage::Applying ==> final(self).stage
                == UploadStage::Finished && (r matches UploadStep::Git(GitStep::Done(Err(x))) && x
                == outcome->Err_0),
            old(self).stage == UploadStage::Pulling ==> if pull_succeeds(outcome) {
                if old(self).count > 0 {
                    final(self).stage == UploadStage::Inspecting && final(self).index == 0
                        && r == UploadStep::Inspect(0)
                } else {
                    final(self).stage == UploadStage::Finished && r == UploadStep::Git(
                        GitStep::<usize>::Done(Ok(0)),
                    )
                }
            } else {
                final(self).stage == UploadStage::Finished && (r matches UploadStep::Git(
                    GitStep::Done(Err(x)),
                ) && x == outcome->Err_0)
            },
            outcome is Ok && old(self).stage == UploadStage::Applying ==> final(self).written
                == old(self).written + 1 && final(self).advanced(*old(self), r),
            old(self).stage == UploadStage::Publishing ==> final(self).written == old(self).written
                && (r matches UploadStep::Git(step) && exists|s: GitStep<()>|
                commit_push_resumed(old(self).publish, outcome, final(self).publish, s) && match s {
                    GitStep::Run { dir, args } => step == GitStep::<usize>::Run { dir, args },
                    GitStep::CreateDir { dir } => step == GitStep::<usize>::CreateDir { dir },
                    GitStep::Done(Ok(_)) => step == GitStep::<usize>::Done(Ok(old(self).written)),
                    GitStep::Done(Err(e)) => step matches GitStep::Done(Err(x)) && x == e,
                }) && (final(self).stage == UploadStage::Finished <==> final(self).publish.finished),
    {
        match self.stage {
            UploadStage::Pulling => match pull_rebase_outcome(outcome) {
                Ok(()) => {
                    assert(self.changed@.take(0) =~= Seq::<bool>::empty());
                    if self.count > 0 {
                        self.stage = UploadStage::Inspecting;
                        UploadStep::Inspect(0)
                    } else {
                        self.stage = UploadStage::Finished;
                        UploadStep::Git(GitStep::Done(Ok(0)))
                    }
                },
                Err(e) => {
                    self.stage = UploadStage::Finished;
                    UploadStep::Git(GitStep::Done(Err(e)))
                },
            },
            UploadStage::Applying => match outcome {
                Ok(_) => {
                    proof {
                        let c = self.changed@;
                        let i = self.index as int;
                        assert(c.take(i + 1).drop_last() =~= c.take(i));
                        assert(c.take(i + 1).last() == c[i]);
                    }
                    self.written = self.written + 1;
                    self.next_session()
                },
                Err(e) => {
                    self.stage = UploadStage::Finished;
                    UploadStep::Git(GitStep::Done(Err(e)))
                },
            },
            _ => {
                assert(self.changed@.take(self.index as int) =~= self.changed@);
                let step = self.publish.resume(outcome);
                if self.publish.finished {
                    self.stage = UploadStage::Finished;
                }
                let r = map_step(step, self.written);
                UploadStep::Git(r)
            },
        }
    }

    /// Takes the files of the session being inspected (selected session
    /// `index`) and decides what it needs: an unreadable local transcript ends
    /// the upload with its error; a session to skip moves the upload on;
    /// anything else is handed out to be carried out. Whether the session
    /// needed writing is recorded, so that the count the upload ends with is
    /// the number of sessions that did.
    pub fn inspect(&mut self, files: SessionFiles) -> (r: UploadStep)
        requires
            old(self).can_resume(),
            old(self).stage == UploadStage::Inspecting,
        ensures
            final(self).stage != UploadStage::Finished ==> final(self).can_resume(),
            final(self).count == old(self).count,
            final(self).sessions == old(self).sessions,
            final(self).written == old(self).written,
            r matches UploadStep::Git(GitStep::Done(Ok(n))) ==> n == changed_count(
                final(self).changed@,
            ) && final(self).changed@.len() == final(self).count,
            final(self).device_id == old(self).device_id,
            final(self).now_iso == old(self).now_iso,
            final(self).git_dir == old(self).git_dir,
            match files.local {
                Err(e) => final(self).stage == UploadStage::Finished && (r matches UploadStep::Git(
                    GitStep::Done(Err(x)),
                ) && x == e),
                Ok(local) => {
                    let stored = match files.stored {
                        Some(b) => Some(b@),
                        None => None,
                    };
                    let existing = match files.existing {
                        Some(e) => Some(e@),
                        None => None,
                    };
                    &&& final(self).changed@ == old(self).changed@.push(
                        !(existing is Some && same_transcript(local@, stored)),
                    )
                    &&& if existing is Some && same_transcript(local@, stored) {
                        final(self).advanced(*old(self), r)
                    } else {
                        final(self).stage == UploadStage::Applying && final(self).index
                            == old(self).index && (r matches UploadStep::Apply(i, a) && i
                            == old(self).index && upload_decided(
                            old(self).sessions@[old(self).index as int]@,
                            local@,
                            stored,
                            existing,
                            old(self).device_id@,
                            old(self).now_iso@,
                            a,
                        ))
                    }
                },
            },
    {
        match files.local {
            Err(e) => {
                self.stage = UploadStage::Finished;
                UploadStep::Git(GitStep::Done(Err(e)))
            },
            Ok(local) => {
                let ghost stored_view = match &files.stored {
                    Some(b) => Some(b@),
                    None => None,
                };
                let ghost needed = !(files.existing is Some && same_transcript(local@, stored_view));
                let ghost before = self.changed@;
                let ghost i = self.index as int;
                self.changed = Ghost(self.changed@.push(needed));
                proof {
                    let c = self.changed@;
                    assert(before.take(i) =~= before);
                    assert(c.take(i) =~= before);
                    assert(c.take(i + 1).drop_last() =~= before);
                    assert(c.take(i + 1).last() == needed);
                }
                let stored = match &files.stored {
                    Some(b) => Some(b.as_slice()),
                    None => None,
                };
                let action = upload_action(
                    &self.sessions[self.index],
                    local.as_slice(),
                    stored,
                    files.existing,
                    self.device_id.as_str(),
                    self.now_iso.as_str(),
                );
                match action {
                    UploadAction::Skip => self.next_session(),
                    other => {
                        self.stage = UploadStage::Applying;
                        UploadStep::Apply(self.index, other)
                    },
                }
            },
        }
    }
}

} // verus!
