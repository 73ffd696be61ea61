//! The records that describe a session: what a scan finds on this device,
//! the metadata kept beside a transcript in the sync repository, and a
//! device's entry there.
use vstd::prelude::*;

use crate::paths::PathMapping;
use crate::text::owned;

verus! {

/// Which assistant wrote a transcript.
#[derive(Debug, Clone, Copy, PartialEq, Eq, Structural)]
pub enum SessionSource {
    Codex,
    ClaudeCode,
}

/// A transcript found on this device.
#[derive(Debug, Clone)]
pub struct SessionSummary {
    pub session_id: String,
    pub source: SessionSource,
    pub cwd: String,
    pub transcript_path: String,
    pub relative_store_path: String,
    pub first_message: String,
    pub message_count: u32,
    pub started_at: String,
    pub last_active_at: String,
}

/// The contents of a `SessionSummary`, its strings as character sequences.
pub struct SummaryView {
    pub session_id: Seq<char>,
    pub source: SessionSource,
    pub cwd: Seq<char>,
    pub transcript_path: Seq<char>,
    pub relative_store_path: Seq<char>,
    pub first_message: Seq<char>,
    pub message_count: u32,
    pub started_at: Seq<char>,
    pub last_active_at: Seq<char>,
}

impl View for SessionSummary {
    type V = SummaryView;

    open spec fn view(&self) -> SummaryView {
        SummaryView {
            session_id: self.session_id@,
            source: self.source,
            cwd: self.cwd@,
            transcript_path: self.transcript_path@,
            relative_store_path: self.relative_store_path@,
            first_message: self.first_message@,
            message_count: self.message_count,
            started_at: self.started_at@,
            last_active_at: self.last_active_at@,
        }
    }
}

/// The metadata stored beside a transcript in the sync repository.
#[derive(Debug)]
pub struct SessionMeta {
    pub schema_version: u32,
    pub session_id: String,
    pub source: SessionSource,
    pub title: String,
    pub description: String,
    pub tags: Vec<String>,
    pub starred: bool,
    pub origin_device_id: String,
    pub origin_cwd: String,
    pub relative_store_path: String,
    pub started_at: String,
    pub last_active_at: String,
    pub updated_at: String,
}

/// The contents of a `SessionMeta`, its strings as character sequences.
pub struct MetaView {
    pub schema_version: u32,
    pub session_id: Seq<char>,
    pub source: SessionSource,
    pub title: Seq<char>,
    pub description: Seq<char>,
    pub tags: Seq<Seq<char>>,
    pub starred: bool,
    pub origin_device_id: Seq<char>,
    pub origin_cwd: Seq<char>,
    pub relative_store_path: Seq<char>,
    pub started_at: Seq<char>,
    pub last_active_at: Seq<char>,
    pub updated_at: Seq<char>,
}

impl View for SessionMeta {
    type V = MetaView;

    open spec fn view(&self) -> MetaView {
        MetaView {
            schema_version: self.schema_version,
            session_id: self.session_id@,
            source: self.source,
            title: self.title@,
            description: self.description@,
            tags: crate::text::views(self.tags@),
            starred: self.starred,
            origin_device_id: self.origin_device_id@,
            origin_cwd: self.origin_cwd@,
            relative_store_path: self.relative_store_path@,
            started_at: self.started_at@,
            last_active_at: self.last_active_at@,
            updated_at: self.updated_at@,
        }
    }
}

/// The metadata a first upload records for a scanned session: version 1, the
/// first message as title, no description, tags or star, this device as
/// origin, and `now` as the time of the last edit.
pub open spec fn initial_meta(s: SummaryView, device_id: Seq<char>, now: Seq<char>) -> MetaView {
    MetaView {
        schema_version: 1,
        session_id: s.session_id,
        source: s.source,
        title: s.first_message,
        description: Seq::empty(),
        tags: Seq::empty(),
        starred: false,
        origin_device_id: device_id,
        origin_cwd: s.cwd,
        relative_store_path: s.relative_store_path,
        started_at: s.started_at,
        last_active_at: s.last_active_at,
        updated_at: now,
    }
}

impl SessionMeta {
    /// The metadata a first upload of `s` records.
    pub fn from_summary(s: &SessionSummary, device_id: &str, now_iso: &str) -> (r: SessionMeta)
        ensures
            r@ == initial_meta(s@, device_id@, now_iso@),
            r.schema_version == 1,
            r.session_id@ == s.session_id@,
            r.source == s.source,
            r.title@ == s.first_message@,
            r.description@.len() == 0,
            r.tags@.len() == 0,
            !r.starred,
            r.origin_device_id@ == device_id@,
            r.origin_cwd@ == s.cwd@,
            r.relative_store_path@ == s.relative_store_path@,
            r.started_at@ == s.started_at@,
            r.last_active_at@ == s.last_active_at@,
            r.updated_at@ == now_iso@,
    {
        let r = SessionMeta {
            schema_version: 1,
            session_id: s.session_id.clone(),
            source: s.source,
            title: s.first_message.clone(),
            description: String::new(),
            tags: Vec::new(),
            starred: false,
            origin_device_id: owned(device_id),
            origin_cwd: s.cwd.clone(),
            relative_store_path: s.relative_store_path.clone(),
            started_at: s.started_at.clone(),
            last_active_at: s.last_active_at.clone(),
            updated_at: owned(now_iso),
        };
        assert(r@.tags =~= Seq::<Seq<char>>::empty());
        proof {
            lemma_initial_meta_keeps_identity(s@, device_id@, now_iso@);
        }
        r
    }
}

/// The first metadata of a session keeps the session's identity and what was
/// scanned: same id, same assistant, same store path and times, the first
/// message as title, and this device as origin.
pub proof fn lemma_initial_meta_keeps_identity(s: SummaryView, device_id: Seq<char>, now: Seq<char>)
    ensures
        ({
            let m = initial_meta(s, device_id, now);
            &&& m.session_id == s.session_id
            &&& m.source == s.source
            &&& m.title == s.first_message
            &&& m.origin_device_id == device_id
            &&& m.origin_cwd == s.cwd
            &&& m.relative_store_path == s.relative_store_path
            &&& m.started_at == s.started_at
            &&& m.last_active_at == s.last_active_at
            &&& m.updated_at == now
            &&& m.description.len() == 0
            &&& m.tags.len() == 0
            &&& !m.starred
        }),
{
}

/// A device's entry in the sync repository.
#[derive(Debug)]
pub struct DeviceInfo {
    pub device_id: String,
    pub hostname: String,
    pub os: String,
    pub path_mappings: Vec<PathMapping>,
    pub last_sync_at: String,
}

} // verus!
