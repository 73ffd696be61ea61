//! Codex rollouts: `~/.codex/sessions/<yyyy>/<mm>/<dd>/rollout-*.jsonl`.
use vstd::prelude::*;

use crate::json::Json;
use crate::model::{SessionSource, SessionSummary, SummaryView};
use crate::scan_claude::{is_opening_text, summary_views, ScanError};
use crate::text::{
    chars_of, count_where, first_nonempty, lemma_first_nonempty_found, has_jsonl_extension, is_jsonl_name, join,
    join_strings, last_value, owned, push_char, starts_with_char, str_eq,
    take_at_most, truncate_chars, views,
};
use crate::tree::{tree_fits, Entry, Node};

verus! {

broadcast use vstd::string::group_string_axioms;

/// The `text` fields of the items that have one.
pub open spec fn item_texts(items: Seq<Json>) -> Seq<Seq<char>>
    decreases items.len(),
{
    if items.len() == 0 {
        Seq::empty()
    } else {
        let before = item_texts(items.drop_last());
        match items.last().str_field("text"@) {
            Some(t) => before.push(t),
            None => before,
        }
    }
}

/// The text of a message payload: the `text` fields of its `content` items
/// joined by newlines; nothing when `content` is not an array.
pub open spec fn input_text_of(payload: Json) -> Seq<char> {
    match payload.lookup("content"@) {
        Some(Json::Array(items)) => join(item_texts(items@), "\n"@),
        _ => Seq::empty(),
    }
}

/// The text of a message payload.
pub fn input_text(payload: &Json) -> (r: String)
    ensures
        r@ == input_text_of(*payload),
{
    match payload.get("content") {
        Some(c) => match c.as_array() {
            Some(items) => {
                let mut texts: Vec<String> = Vec::new();
                let mut i: usize = 0;
                while i < items.len()
                    invariant
                        i <= items@.len(),
                        views(texts@) == item_texts(items@.take(i as int)),
                    decreases items@.len() - i,
                {
                    assert(items@.take(i + 1).drop_last() =~= items@.take(i as int));
                    match items[i].get_str("text") {
                        Some(t) => {
                            let ghost v0 = views(texts@);
                            texts.push(t.clone());
                            assert(views(texts@) =~= v0.push(t@));
                        },
                        None => {},
                    }
                    i = i + 1;
                }
                assert(items@.take(i as int) =~= items@);
                join_strings(&texts, "\n")
            },
            None => String::new(),
        },
        None => String::new(),
    }
}

/// A `session_meta` line with a payload.
pub open spec fn is_session_meta(r: Option<Json>) -> bool {
    match r {
        Some(v) => v.str_field("type"@) == Some("session_meta"@) && v.has_field("payload"@),
        None => false,
    }
}

/// The string a `session_meta` line's payload holds under `key`, empty when
/// it holds none; `None` for other lines.
pub open spec fn meta_field(r: Option<Json>, key: Seq<char>) -> Option<Seq<char>> {
    if is_session_meta(r) {
        match r.unwrap().lookup("payload"@).unwrap().str_field(key) {
            Some(s) => Some(s),
            None => Some(Seq::empty()),
        }
    } else {
        None
    }
}

/// A `response_item` line whose payload is a `message` from the user or the
/// assistant.
pub open spec fn is_message(r: Option<Json>) -> bool {
    match r {
        Some(v) => {
            &&& v.str_field("type"@) == Some("response_item"@)
            &&& v.lookup("payload"@) matches Some(p)
            &&& p.str_field("type"@) == Some("message"@)
            &&& (p.str_field("role"@) == Some("user"@) || p.str_field("role"@) == Some(
                "assistant"@,
            ))
        },
        None => false,
    }
}

/// The timestamp a message line carries.
pub open spec fn message_timestamp(r: Option<Json>) -> Option<Seq<char>> {
    if is_message(r) {
        r.unwrap().str_field("timestamp"@)
    } else {
        None
    }
}

/// The opening text a user message line offers, cut to 200 characters.
pub open spec fn message_opening(r: Option<Json>) -> Option<Seq<char>> {
    if is_message(r) {
        let p = r.unwrap().lookup("payload"@).unwrap();
        if p.str_field("role"@) == Some("user"@) && is_opening_text(input_text_of(p)) {
            Some(take_at_most(input_text_of(p), 200))
        } else {
            None
        }
    } else {
        None
    }
}

/// What a user message offers as a title is the start of its input text,
/// cut to 200 characters: the whole text when it is no longer, its first 200
/// characters otherwise. It is never empty and never starts with `<`.
pub proof fn lemma_message_opening(r: Option<Json>)
    ensures
        message_opening(r) matches Some(t) ==> {
            let text = input_text_of(r.unwrap().lookup("payload"@).unwrap());
            &&& 0 < t.len() <= 200
            &&& t[0] != '<'
            &&& t.is_prefix_of(text)
            &&& text.len() <= 200 ==> t == text
            &&& text.len() > 200 ==> t.len() == 200
        },
{
}

/// The title of a summarised rollout is empty or the start of a user
/// message that does not begin with `<`, and holds at most 200 characters.
pub proof fn lemma_codex_title(path: Seq<char>, relative: Seq<char>, records: Seq<Option<Json>>)
    ensures
        codex_summary(path, relative, records) matches Some(s) ==> {
            &&& s.first_message.len() <= 200
            &&& s.first_message.len() > 0 ==> s.first_message[0] != '<'
        },
{
    let f = |r: Option<Json>| message_opening(r);
    lemma_first_nonempty_found(records, f);
    let t = first_nonempty(records, f);
    if t.len() > 0 {
        let i = choose|i: int| 0 <= i < records.len() && #[trigger] f(records[i]) == Some(t);
        lemma_message_opening(records[i]);
    }
}

/// The summary of a Codex rollout: id, working directory and start time from
/// the last `session_meta` line, the number of user and assistant messages,
/// the last message timestamp and the first opening user text; no summary
/// when no `session_meta` line names the session.
pub open spec fn codex_summary(
    path: Seq<char>,
    relative: Seq<char>,
    records: Seq<Option<Json>>,
) -> Option<SummaryView> {
    let id = last_value(records, |r: Option<Json>| meta_field(r, "id"@));
    if id.len() == 0 {
        None
    } else {
        Some(
            SummaryView {
                session_id: id,
                source: SessionSource::Codex,
                cwd: last_value(records, |r: Option<Json>| meta_field(r, "cwd"@)),
                transcript_path: path,
                relative_store_path: relative,
                first_message: first_nonempty(records, |r: Option<Json>| message_opening(r)),
                message_count: count_where(records, |r: Option<Json>| is_message(r)) as u32,
                started_at: last_value(records, |r: Option<Json>| meta_field(r, "timestamp"@)),
                last_active_at: last_value(records, |r: Option<Json>| message_timestamp(r)),
            },
        )
    }
}

struct RolloutFacts {
    meta: bool,
    id: String,
    cwd: String,
    started: String,
    message: bool,
    timestamp: Option<String>,
    opening: Option<String>,
}

fn field_or_empty(p: &Json, key: &str) -> (r: String)
    ensures
        r@ == (match p.str_field(key@) {
            Some(s) => s,
            None => Seq::empty(),
        }),
{
    match p.get_str(key) {
        Some(s) => s.clone(),
        None => String::new(),
    }
}

fn rollout_facts(r: &Option<Json>) -> (f: RolloutFacts)
    ensures
        f.meta == is_session_meta(*r),
        f.meta ==> meta_field(*r, "id"@) == Some(f.id@) && meta_field(*r, "cwd"@) == Some(f.cwd@)
            && meta_field(*r, "timestamp"@) == Some(f.started@),
        f.message == is_message(*r),
        match f.timestamp {
            Some(c) => message_timestamp(*r) == Some(c@),
            None => message_timestamp(*r) is None,
        },
        match f.opening {
            Some(c) => message_opening(*r) == Some(c@),
            None => message_opening(*r) is None,
        },
{
    let mut f = RolloutFacts {
        meta: false,
        id: String::new(),
        cwd: String::new(),
        started: String::new(),
        message: false,
        timestamp: None,
        opening: None,
    };
    match r {
        None => {},
        Some(v) => {
            let payload = match v.get("payload") {
                Some(p) => p,
                None => {
                    return f;
                },
            };
            let (is_meta, is_item) = match v.get_str("type") {
                Some(t) => (str_eq(t.as_str(), "session_meta"), str_eq(t.as_str(), "response_item")),
                None => (false, false),
            };
            proof {
                reveal_strlit("session_meta");
                reveal_strlit("response_item");
                assert("session_meta"@.len() == 12);
                assert("response_item"@.len() == 13);
            }
            if is_meta {
                f.meta = true;
                f.id = field_or_empty(payload, "id");
                f.cwd = field_or_empty(payload, "cwd");
                f.started = field_or_empty(payload, "timestamp");
            } else if is_item {
                let is_msg = match payload.get_str("type") {
                    Some(t) => str_eq(t.as_str(), "message"),
                    None => false,
                };
                if !is_msg {
                    return f;
                }
                let (is_user, is_assistant) = match payload.get_str("role") {
                    Some(t) => (str_eq(t.as_str(), "user"), str_eq(t.as_str(), "assistant")),
                    None => (false, false),
                };
                if !is_user && !is_assistant {
                    return f;
                }
                f.message = true;
                f.timestamp = match v.get_str("timestamp") {
                    Some(t) => Some(t.clone()),
                    None => None,
                };
                if is_user {
                    let text = input_text(payload);
                    if !text.as_str().is_empty() && !starts_with_char(text.as_str(), '<') {
                        f.opening = Some(truncate_chars(text.as_str(), 200));
                    }
                }
            }
        },
    }
    f
}

/// Summarises the parsed lines of the Codex rollout at `path`, stored under
/// `relative_store_path` in the sync repository.
pub fn parse_session_file(
    path: &str,
    relative_store_path: &str,
    records: &Vec<Option<Json>>,
) -> (r: Result<SessionSummary, ScanError>)
    requires
        records@.len() <= u32::MAX,
    ensures
        match r {
            Ok(s) => codex_summary(path@, relative_store_path@, records@) == Some(s@),
            Err(e) => codex_summary(path@, relative_store_path@, records@) is None && e
                == ScanError::NoSessionMeta,
        },
        r matches Ok(s) ==> s.first_message@.len() <= 200 && (s.first_message@.len() > 0
            ==> s.first_message@[0] != '<'),
{
    proof {
        lemma_codex_title(path@, relative_store_path@, records@);
    }
    let mut session_id = String::new();
    let mut cwd = String::new();
    let mut started_at = String::new();
    let mut first_message = String::new();
    let mut count: u32 = 0;
    let mut last_active_at = String::new();
    let mut i: usize = 0;
    while i < records.len()
        invariant
            i <= records@.len(),
            records@.len() <= u32::MAX,
            count <= i,
            count as nat == count_where(records@.take(i as int), |r: Option<Json>| is_message(r)),
            session_id@ == last_value(
                records@.take(i as int),
                |r: Option<Json>| meta_field(r, "id"@),
            ),
            cwd@ == last_value(records@.take(i as int), |r: Option<Json>| meta_field(r, "cwd"@)),
            started_at@ == last_value(
                records@.take(i as int),
                |r: Option<Json>| meta_field(r, "timestamp"@),
            ),
            last_active_at@ == last_value(
                records@.take(i as int),
                |r: Option<Json>| message_timestamp(r),
            ),
            first_message@ == first_nonempty(
                records@.take(i as int),
                |r: Option<Json>| message_opening(r),
            ),
        decreases records@.len() - i,
    {
        let f = rollout_facts(&records[i]);
        assert(records@.take(i + 1).drop_last() =~= records@.take(i as int));
        assert(records@.take(i + 1).last() == records@[i as int]);
        if f.meta {
            session_id = f.id;
            cwd = f.cwd;
            started_at = f.started;
        }
        if f.message {
            count = count + 1;
        }
        match f.timestamp {
            Some(t) => {
                last_active_at = t;
            },
            None => {},
        }
        match f.opening {
            Some(o) => {
                if first_message.as_str().is_empty() {
                    first_message = o;
                }
            },
            None => {},
        }
        i = i + 1;
    }
    assert(records@.take(i as int) =~= records@);
    if session_id.as_str().is_empty() {
        return Err(ScanError::NoSessionMeta);
    }
    Ok(
        SessionSummary {
            session_id,
            source: SessionSource::Codex,
            cwd,
            transcript_path: owned(path),
            relative_store_path: owned(relative_store_path),
            first_message,
            message_count: count,
            started_at,
            last_active_at,
        },
    )
}

/// `name` with every `\\` turned into `/`.
pub open spec fn slashed(name: Seq<char>) -> Seq<char> {
    name.map_values(|c: char|
        if c == '\\' {
            '/'
        } else {
            c
        })
}

/// The path, relative to the sessions root and with `/` separators, of the
/// entry `name` inside the directory at relative path `prefix`.
pub open spec fn child_relative(prefix: Seq<char>, name: Seq<char>) -> Seq<char> {
    if prefix.len() == 0 {
        slashed(name)
    } else {
        prefix + seq!['/'] + slashed(name)
    }
}

/// The sessions found under `entries` (a directory at relative path
/// `prefix`), depth first in listing order.
pub open spec fn walk_entries(entries: Seq<Entry>, prefix: Seq<char>) -> Seq<SummaryView>
    decreases entries, 0int,
{
    if entries.len() == 0 {
        Seq::empty()
    } else {
        walk_entries(entries.drop_last(), prefix) + entry_sessions(entries.last(), prefix)
    }
}

/// The sessions found at one entry: a directory is walked, a readable
/// `.jsonl` file with a `session_meta` line is one session.
pub open spec fn entry_sessions(e: Entry, prefix: Seq<char>) -> Seq<SummaryView>
    decreases e, 1int,
{
    let rel = child_relative(prefix, e.name@);
    match e.node {
        Node::Dir(Some(children)) => walk_entries(children@, rel),
        Node::Dir(None) => Seq::empty(),
        Node::File(Some(records)) => if is_jsonl_name(e.name@) {
            match codex_summary(e.path@, rel, records@) {
                Some(s) => seq![s],
                None => Seq::empty(),
            }
        } else {
            Seq::empty()
        },
        Node::File(None) => Seq::empty(),
    }
}

/// The sessions a scan of `~/.codex/sessions` finds: none when the root
/// cannot be listed.
pub open spec fn codex_scan(root: Node) -> Seq<SummaryView> {
    match root {
        Node::Dir(Some(entries)) => walk_entries(entries@, Seq::empty()),
        _ => Seq::empty(),
    }
}

fn child_relative_path(prefix: &str, name: &str) -> (r: String)
    ensures
        r@ == child_relative(prefix@, name@),
{
    let cs = chars_of(name);
    let mut r = owned(prefix);
    if !prefix.is_empty() {
        push_char(&mut r, '/');
    }
    let ghost base = r@;
    let mut i: usize = 0;
    while i < cs.len()
        invariant
            cs@ == name@,
            i <= cs@.len(),
            r@ == base + slashed(cs@.take(i as int)),
        decreases cs@.len() - i,
    {
        let c = cs[i];
        let d = if c == '\\' {
            '/'
        } else {
            c
        };
        push_char(&mut r, d);
        i = i + 1;
        assert(slashed(cs@.take(i as int)) =~= slashed(cs@.take(i - 1)).push(d));
    }
    assert(cs@.take(i as int) =~= cs@);
    proof {
        if prefix@.len() == 0 {
            assert(r@ =~= slashed(name@));
        }
    }
    r
}

fn walk(entries: &Vec<Entry>, prefix: &str, out: &mut Vec<SessionSummary>)
    requires
        forall|i: int| 0 <= i < entries@.len() ==> #[trigger] tree_fits(entries@[i].node),
    ensures
        summary_views(final(out)@) == summary_views(old(out)@) + walk_entries(entries@, prefix@),
    decreases entries@,
{
    let ghost start = summary_views(out@);
    let mut i: usize = 0;
    while i < entries.len()
        invariant
            i <= entries@.len(),
            forall|k: int| 0 <= k < entries@.len() ==> #[trigger] tree_fits(entries@[k].node),
            summary_views(out@) == start + walk_entries(entries@.take(i as int), prefix@),
        decreases entries@.len() - i,
    {
        let e = &entries[i];
        assert(entries@.take(i + 1).drop_last() =~= entries@.take(i as int));
        assert(entries@.take(i + 1).last() == entries@[i as int]);
        assert(tree_fits(entries@[i as int].node));
        let ghost before = summary_views(out@);
        let rel = child_relative_path(prefix, e.name.as_str());
        match &e.node {
            Node::Dir(Some(children)) => {
                assert(decreases_to!(entries@ => children@)) by {
                    assert(decreases_to!(entries@ => entries@[i as int]));
                    assert(decreases_to!(entries@[i as int] => entries@[i as int].node));
                };
                proof {
                    crate::tree::lemma_entries_fit(children@);
                }
                walk(children, rel.as_str(), out);
            },
            Node::File(Some(records)) => {
                if has_jsonl_extension(e.name.as_str()) {
                    match parse_session_file(e.path.as_str(), rel.as_str(), records) {
                        Ok(s) => {
                            out.push(s);
                            assert(summary_views(out@) =~= before.push(s@));
                        },
                        Err(_) => {},
                    }
                }
            },
            _ => {},
        }
        assert(summary_views(out@) =~= before + entry_sessions(entries@[i as int], prefix@));
        i = i + 1;
    }
    assert(entries@.take(i as int) =~= entries@);
}

/// Finds every Codex session under `sessions_root`, walking the whole tree:
/// each readable `.jsonl` file with a `session_meta` line. A root that cannot
/// be listed gives no sessions.
pub fn scan(sessions_root: &Node) -> (r: Result<Vec<SessionSummary>, ScanError>)
    requires
        tree_fits(*sessions_root),
    ensures
        r matches Ok(v) && summary_views(v@) == codex_scan(*sessions_root),
{
    let mut out: Vec<SessionSummary> = Vec::new();
    match sessions_root {
        Node::Dir(Some(entries)) => {
            proof {
                crate::tree::lemma_entries_fit(entries@);
            }
            walk(entries, "", &mut out);
            proof {
                reveal_strlit("");
                assert(""@ =~= Seq::<char>::empty());
                assert(summary_views(out@) =~= walk_entries(entries@, Seq::empty()));
            }
        },
        _ => {
            assert(summary_views(out@) =~= Seq::<SummaryView>::empty());
        },
    }
    Ok(out)
}

} // verus!
