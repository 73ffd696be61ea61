//! `ClaudeCode` transcripts: `projects/<project>/<session>.jsonl` under its home directory.
use vstd::prelude::*;

use crate::json::Json;
use crate::model::{SessionSource, SessionSummary, SummaryView};
use crate::text::{
    append_str, count_where, first_nonempty, lemma_first_nonempty_found, has_jsonl_extension, is_jsonl_name, join,
    join_strings, jsonl_file_stem, jsonl_stem, jsonl_suffix, last_value,
    owned, push_char, starts_with_char, str_eq, take_at_most, truncate_chars, views,
};
use crate::tree::{Entry, Node};

verus! {

broadcast use vstd::string::group_string_axioms;

/// Why a transcript yields no session.
#[derive(Debug, Clone, Copy, PartialEq, Eq, Structural)]
pub enum ScanError {
    /// A `ClaudeCode` transcript without a single counted message.
    NoMessages,
    /// A Codex rollout without a `session_meta` line naming the session.
    NoSessionMeta,
}

/// The texts of the `{"type": "text", "text": ...}` blocks among `blocks`.
pub open spec fn text_blocks(blocks: Seq<Json>) -> Seq<Seq<char>>
    decreases blocks.len(),
{
    if blocks.len() == 0 {
        Seq::empty()
    } else {
        let before = text_blocks(blocks.drop_last());
        let b = blocks.last();
        if b.str_field("type"@) == Some("text"@) && b.str_field("text"@) is Some {
            before.push(b.str_field("text"@).unwrap())
        } else {
            before
        }
    }
}

/// The text of a message's `content`: a string as it is, an array as the
/// texts of its text blocks joined by newlines, anything else as nothing.
pub open spec fn content_text_of(content: Json) -> Seq<char> {
    match content {
        Json::Str(s) => s@,
        Json::Array(blocks) => join(text_blocks(blocks@), "\n"@),
        _ => Seq::empty(),
    }
}

/// The text of a message's `content`.
pub fn content_text(content: &Json) -> (r: String)
    ensures
        r@ == content_text_of(*content),
{
    match content {
        Json::Str(s) => s.clone(),
        Json::Array(blocks) => {
            let mut texts: Vec<String> = Vec::new();
            let mut i: usize = 0;
            while i < blocks.len()
                invariant
                    i <= blocks@.len(),
                    views(texts@) == text_blocks(blocks@.take(i as int)),
                decreases blocks@.len() - i,
            {
                let b = &blocks[i];
                assert(blocks@.take(i + 1).drop_last() =~= blocks@.take(i as int));
                let is_text = match b.get_str("type") {
                    Some(t) => str_eq(t.as_str(), "text"),
                    None => false,
                };
                if is_text {
                    match b.get_str("text") {
                        Some(x) => {
                            let ghost v0 = views(texts@);
                            texts.push(x.clone());
                            assert(views(texts@) =~= v0.push(x@));
                        },
                        None => {},
                    }
                }
                i = i + 1;
            }
            assert(blocks@.take(i as int) =~= blocks@);
            join_strings(&texts, "\n")
        },
        _ => String::new(),
    }
}

/// A line that counts as a message: a `user` or `assistant` entry that is not
/// on a side chain and carries a `message`.
pub open spec fn is_counted(v: Json) -> bool {
    let t = v.str_field("type"@);
    &&& (t == Some("user"@) || t == Some("assistant"@))
    &&& v.bool_field("isSidechain"@) != Some(true)
    &&& v.has_field("message"@)
}

/// A parsed line that counts as a message.
pub open spec fn counted_line(r: Option<Json>) -> bool {
    match r {
        Some(v) => is_counted(v),
        None => false,
    }
}

/// The working directory a counted line names.
pub open spec fn line_cwd(r: Option<Json>) -> Option<Seq<char>> {
    match r {
        Some(v) => if is_counted(v) {
            v.str_field("cwd"@)
        } else {
            None
        },
        None => None,
    }
}

/// The timestamp a counted line carries.
pub open spec fn line_timestamp(r: Option<Json>) -> Option<Seq<char>> {
    match r {
        Some(v) => if is_counted(v) {
            v.str_field("timestamp"@)
        } else {
            None
        },
        None => None,
    }
}

/// A text that can open a session's title: not empty and not starting with
/// `<` (command and system wrappers start so).
pub open spec fn is_opening_text(t: Seq<char>) -> bool {
    t.len() > 0 && t[0] != '<'
}

/// The opening text a counted user line offers, cut to 200 characters.
pub open spec fn line_opening(r: Option<Json>) -> Option<Seq<char>> {
    match r {
        Some(v) => if is_counted(v) && v.str_field("type"@) == Some("user"@) {
            match v.lookup("message"@) {
                Some(m) => match m.lookup("content"@) {
                    Some(c) => if is_opening_text(content_text_of(c)) {
                        Some(take_at_most(content_text_of(c), 200))
                    } else {
                        None
                    },
                    None => None,
                },
                None => None,
            }
        } else {
            None
        },
        None => None,
    }
}

/// What a user line offers as a title is the start of its message's
/// content text, cut to 200 characters: the whole text when it is no longer,
/// its first 200 characters otherwise. It is never empty and never starts
/// with `<` (the mark of command and system wrappers).
pub proof fn lemma_line_opening(r: Option<Json>)
    ensures
        line_opening(r) matches Some(t) ==> {
            let text = content_text_of(
                r.unwrap().lookup("message"@).unwrap().lookup("content"@).unwrap(),
            );
            &&& 0 < t.len() <= 200
            &&& t[0] != '<'
            &&& t.is_prefix_of(text)
            &&& text.len() <= 200 ==> t == text
            &&& text.len() > 200 ==> t.len() == 200
        },
{
}

/// The title of a summarised transcript is empty or the start of a user
/// message that does not begin with `<`, and holds at most 200 characters.
pub proof fn lemma_claude_title(
    path: Seq<char>,
    session_id: Seq<char>,
    project: Seq<char>,
    records: Seq<Option<Json>>,
)
    ensures
        claude_summary(path, session_id, project, records) matches Some(s) ==> {
            &&& s.first_message.len() <= 200
            &&& s.first_message.len() > 0 ==> s.first_message[0] != '<'
        },
{
    let f = |r: Option<Json>| line_opening(r);
    lemma_first_nonempty_found(records, f);
    let t = first_nonempty(records, f);
    if t.len() > 0 {
        let i = choose|i: int| 0 <= i < records.len() && #[trigger] f(records[i]) == Some(t);
        lemma_line_opening(records[i]);
    }
}

/// The relative path a `ClaudeCode` transcript is stored under in the sync
/// repository: `<project>/<session>.jsonl`.
pub open spec fn claude_store_path(project: Seq<char>, session_id: Seq<char>) -> Seq<char> {
    project + seq!['/'] + session_id + jsonl_suffix()
}

/// The summary of a `ClaudeCode` transcript: the number of counted lines, the first
/// non-empty working directory and timestamp among them, the last timestamp,
/// and the first opening user text; no summary when nothing counts.
pub open spec fn claude_summary(
    path: Seq<char>,
    session_id: Seq<char>,
    project: Seq<char>,
    records: Seq<Option<Json>>,
) -> Option<SummaryView> {
    let n = count_where(records, |r: Option<Json>| counted_line(r));
    if n == 0 {
        None
    } else {
        Some(
            SummaryView {
                session_id: session_id,
                source: SessionSource::ClaudeCode,
                cwd: first_nonempty(records, |r: Option<Json>| line_cwd(r)),
                transcript_path: path,
                relative_store_path: claude_store_path(project, session_id),
                first_message: first_nonempty(records, |r: Option<Json>| line_opening(r)),
                message_count: n as u32,
                started_at: first_nonempty(records, |r: Option<Json>| line_timestamp(r)),
                last_active_at: last_value(records, |r: Option<Json>| line_timestamp(r)),
            },
        )
    }
}

/// What one line contributes, computed from the line.
struct LineFacts {
    counted: bool,
    cwd: Option<String>,
    timestamp: Option<String>,
    opening: Option<String>,
}

fn line_facts(r: &Option<Json>) -> (f: LineFacts)
    ensures
        f.counted == counted_line(*r),
        match f.cwd {
            Some(c) => line_cwd(*r) == Some(c@),
            None => line_cwd(*r) is None,
        },
        match f.timestamp {
            Some(c) => line_timestamp(*r) == Some(c@),
            None => line_timestamp(*r) is None,
        },
        match f.opening {
            Some(c) => line_opening(*r) == Some(c@),
            None => line_opening(*r) is None,
        },
{
    let none = LineFacts { counted: false, cwd: None, timestamp: None, opening: None };
    match r {
        None => none,
        Some(v) => {
            let (is_user, is_assistant) = match v.get_str("type") {
                Some(t) => (str_eq(t.as_str(), "user"), str_eq(t.as_str(), "assistant")),
                None => (false, false),
            };
            if !is_user && !is_assistant {
                return none;
            }
            let side = match v.get("isSidechain") {
                Some(x) => x.as_bool(),
                None => None,
            };
            if side == Some(true) {
                return none;
            }
            let message = match v.get("message") {
                Some(m) => m,
                None => {
                    return none;
                },
            };
            let cwd = match v.get_str("cwd") {
                Some(c) => Some(c.clone()),
                None => None,
            };
            let timestamp = match v.get_str("timestamp") {
                Some(c) => Some(c.clone()),
                None => None,
            };
            let mut opening = None;
            if is_user {
                match message.get("content") {
                    Some(c) => {
                        let text = content_text(c);
                        if !starts_with_char(text.as_str(), '<') && !text.as_str().is_empty() {
                            opening = Some(truncate_chars(text.as_str(), 200));
                        }
                    },
                    None => {},
                }
            }
            LineFacts { counted: true, cwd, timestamp, opening }
        },
    }
}

/// Summarises the parsed lines of the `ClaudeCode` transcript at `path`, whose
/// file stem is `session_id` and whose directory is `project_dir`.
pub fn parse_session_file(
    path: &str,
    session_id: &str,
    project_dir: &str,
    records: &Vec<Option<Json>>,
) -> (r: Result<SessionSummary, ScanError>)
    requires
        records@.len() <= u32::MAX,
    ensures
        match r {
            Ok(s) => claude_summary(path@, session_id@, project_dir@, records@) == Some(s@),
            Err(e) => claude_summary(path@, session_id@, project_dir@, records@) is None && e
                == ScanError::NoMessages,
        },
        r matches Ok(s) ==> s.first_message@.len() <= 200 && (s.first_message@.len() > 0
            ==> s.first_message@[0] != '<'),
{
    proof {
        lemma_claude_title(path@, session_id@, project_dir@, records@);
    }
    let mut count: u32 = 0;
    let mut cwd = String::new();
    let mut started_at = String::new();
    let mut last_active_at = String::new();
    let mut first_message = String::new();
    let mut i: usize = 0;
    while i < records.len()
        invariant
            i <= records@.len(),
            records@.len() <= u32::MAX,
            count <= i,
            count as nat == count_where(records@.take(i as int), |r: Option<Json>| counted_line(r)),
            cwd@ == first_nonempty(records@.take(i as int), |r: Option<Json>| line_cwd(r)),
            started_at@ == first_nonempty(
                records@.take(i as int),
                |r: Option<Json>| line_timestamp(r),
            ),
            last_active_at@ == last_value(
                records@.take(i as int),
                |r: Option<Json>| line_timestamp(r),
            ),
            first_message@ == first_nonempty(
                records@.take(i as int),
                |r: Option<Json>| line_opening(r),
            ),
        decreases records@.len() - i,
    {
        let f = line_facts(&records[i]);
        assert(records@.take(i + 1).drop_last() =~= records@.take(i as int));
        assert(records@.take(i + 1).last() == records@[i as int]);
        if f.counted {
            count = count + 1;
        }
        match f.cwd {
            Some(c) => {
                if cwd.as_str().is_empty() {
                    cwd = c;
                }
            },
            None => {},
        }
        match f.timestamp {
            Some(t) => {
                if started_at.as_str().is_empty() {
                    started_at = t.clone();
                }
                last_active_at = t;
            },
            None => {},
        }
        match f.opening {
            Some(o) => {
                if first_message.as_str().is_empty() {
                    first_message = o;
                }
            },
            None => {},
        }
        i = i + 1;
    }
    assert(records@.take(i as int) =~= records@);
    if count == 0 {
        return Err(ScanError::NoMessages);
    }
    let mut store = owned(project_dir);
    push_char(&mut store, '/');
    append_str(&mut store, session_id);
    append_str(&mut store, ".jsonl");
    proof {
        reveal_strlit(".jsonl");
        assert(store@ =~= claude_store_path(project_dir@, session_id@));
    }
    Ok(
        SessionSummary {
            session_id: owned(session_id),
            source: SessionSource::ClaudeCode,
            cwd,
            transcript_path: owned(path),
            relative_store_path: store,
            first_message,
            message_count: count,
            started_at,
            last_active_at,
        },
    )
}

/// The sessions found among the files of one project directory, in listing
/// order: each `.jsonl` file that could be read and has a counted message.
pub open spec fn project_sessions(files: Seq<Entry>, project: Seq<char>) -> Seq<SummaryView>
    decreases files.len(),
{
    if files.len() == 0 {
        Seq::empty()
    } else {
        let before = project_sessions(files.drop_last(), project);
        let f = files.last();
        if is_jsonl_name(f.name@) {
            match f.node {
                Node::File(Some(records)) => match claude_summary(
                    f.path@,
                    jsonl_stem(f.name@),
                    project,
                    records@,
                ) {
                    Some(s) => before.push(s),
                    None => before,
                },
                _ => before,
            }
        } else {
            before
        }
    }
}

/// The sessions found under the project directories among `projects`.
pub open spec fn projects_sessions(projects: Seq<Entry>) -> Seq<SummaryView>
    decreases projects.len(),
{
    if projects.len() == 0 {
        Seq::empty()
    } else {
        let before = projects_sessions(projects.drop_last());
        let p = projects.last();
        match p.node {
            Node::Dir(Some(files)) => before + project_sessions(files@, p.name@),
            _ => before,
        }
    }
}

/// The sessions a scan of the `projects` directory of its home finds: none when the root
/// cannot be listed.
pub open spec fn claude_scan(root: Node) -> Seq<SummaryView> {
    match root {
        Node::Dir(Some(projects)) => projects_sessions(projects@),
        _ => Seq::empty(),
    }
}

/// Every transcript a `ClaudeCode` scan reads has a message count that fits a `u32`.
pub open spec fn claude_tree_fits(root: Node) -> bool {
    match root {
        Node::Dir(Some(projects)) => forall|i: int|
            0 <= i < projects@.len() ==> match #[trigger] projects@[i].node {
                Node::Dir(Some(files)) => forall|j: int|
                    0 <= j < files@.len() ==> crate::tree::records_fit(#[trigger] files@[j].node),
                _ => true,
            },
        _ => true,
    }
}

/// The views of a list of summaries.
pub open spec fn summary_views(v: Seq<SessionSummary>) -> Seq<SummaryView> {
    v.map_values(|s: SessionSummary| s@)
}

fn scan_project(files: &Vec<Entry>, project: &str, out: &mut Vec<SessionSummary>)
    requires
        forall|j: int| 0 <= j < files@.len() ==> crate::tree::records_fit(#[trigger] files@[j].node),
    ensures
        summary_views(final(out)@) == summary_views(old(out)@) + project_sessions(files@, project@),
{
    let ghost start = summary_views(out@);
    let mut j: usize = 0;
    while j < files.len()
        invariant
            j <= files@.len(),
            forall|k: int| 0 <= k < files@.len() ==> crate::tree::records_fit(#[trigger] files@[k].node),
            summary_views(out@) == start + project_sessions(files@.take(j as int), project@),
        decreases files@.len() - j,
    {
        let f = &files[j];
        assert(files@.take(j + 1).drop_last() =~= files@.take(j as int));
        assert(crate::tree::records_fit(files@[j as int].node));
        if has_jsonl_extension(f.name.as_str()) {
            match &f.node {
                Node::File(Some(records)) => {
                    let stem = jsonl_file_stem(f.name.as_str());
                    match parse_session_file(f.path.as_str(), stem.as_str(), project, records) {
                        Ok(s) => {
                            let ghost v0 = summary_views(out@);
                            out.push(s);
                            assert(summary_views(out@) =~= v0.push(s@));
                        },
                        Err(_) => {},
                    }
                },
                _ => {},
            }
        }
        j = j + 1;
    }
    assert(files@.take(j as int) =~= files@);
}

/// Finds every `ClaudeCode` session under `projects_root`: each readable `.jsonl`
/// file, one directory below the root, that holds a counted message. A root
/// that cannot be listed gives no sessions.
pub fn scan(projects_root: &Node) -> (r: Result<Vec<SessionSummary>, ScanError>)
    requires
        claude_tree_fits(*projects_root),
    ensures
        r matches Ok(v) && summary_views(v@) == claude_scan(*projects_root),
{
    let mut out: Vec<SessionSummary> = Vec::new();
    match projects_root {
        Node::Dir(Some(projects)) => {
            let mut i: usize = 0;
            while i < projects.len()
                invariant
                    i <= projects@.len(),
                    claude_tree_fits(*projects_root),
                    *projects_root == Node::Dir(Some(*projects)),
                    summary_views(out@) == projects_sessions(projects@.take(i as int)),
                decreases projects@.len() - i,
            {
                let p = &projects[i];
                assert(projects@.take(i + 1).drop_last() =~= projects@.take(i as int));
                match &p.node {
                    Node::Dir(Some(files)) => {
                        assert(match projects@[i as int].node {
                            Node::Dir(Some(files)) => forall|j: int|
                                0 <= j < files@.len() ==> crate::tree::records_fit(
                                    #[trigger] files@[j].node,
                                ),
                            _ => true,
                        });
                        scan_project(files, p.name.as_str(), &mut out);
                    },
                    _ => {},
                }
                i = i + 1;
            }
            assert(projects@.take(i as int) =~= projects@);
        },
        _ => {
            assert(summary_views(out@) =~= Seq::<SummaryView>::empty());
        },
    }
    Ok(out)
}

} // verus!
