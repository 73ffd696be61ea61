//! Putting a synced transcript back where its assistant looks for it, with
//! its working directory rewritten for this device.
use vstd::prelude::*;

use crate::json::{
    field_index, field_set, items_view, json_view, key_index, lemma_fields_view, lemma_index_view,
    lemma_items_view, lemma_lookup_view, fields_view, Json, JsonView,
};
use crate::records::{json_line_text, json_text, parse_json_line, parsed_json};

use crate::model::SessionMeta;
use crate::paths::{join_path, munge_claude_project_dir, munged, path_join};
use crate::scan_claude::{counted_line, is_counted, line_cwd, line_opening, line_timestamp};
use crate::scan_codex::{input_text_of, is_message, is_session_meta, message_opening, message_timestamp, meta_field};
use crate::text::{count_where, first_nonempty, last_value, 
    is_blank, jsonl_suffix, join, join_strings, lines_of, owned, str_eq, text_lines,
    trims_to_empty, views,
};

verus! {

broadcast use vstd::string::group_string_axioms;

/// The lines of a transcript that are not blank.
pub open spec fn non_blank(lines: Seq<Seq<char>>) -> Seq<Seq<char>>
    decreases lines.len(),
{
    if lines.len() == 0 {
        Seq::empty()
    } else if is_blank(lines.last()) {
        non_blank(lines.drop_last())
    } else {
        non_blank(lines.drop_last()).push(lines.last())
    }
}

/// The lines of a transcript's text that carry content, in order.
pub fn transcript_lines(text: &str) -> (r: Vec<String>)
    ensures
        views(r@) == non_blank(lines_of(text@, '\n', '\r')),
{
    let all = text_lines(text);
    let mut out: Vec<String> = Vec::new();
    let mut i: usize = 0;
    while i < all.len()
        invariant
            views(all@) == lines_of(text@, '\n', '\r'),
            i <= all@.len(),
            views(out@) == non_blank(views(all@).take(i as int)),
        decreases all@.len() - i,
    {
        let ghost v0 = views(out@);
        assert(views(all@).take(i + 1).drop_last() =~= views(all@).take(i as int));
        assert(views(all@).take(i + 1).last() == all@[i as int]@);
        if !trims_to_empty(all[i].as_str()) {
            out.push(all[i].clone());
            assert(views(out@) =~= v0.push(all@[i as int]@));
        }
        i = i + 1;
    }
    assert(views(all@).take(i as int) =~= views(all@));
    out
}

/// The text written for a list of lines: each line followed by a newline.
pub open spec fn lines_text(lines: Seq<Seq<char>>) -> Seq<char> {
    join(lines, seq!['\n']) + seq!['\n']
}

/// Joins lines with newlines and ends the text with one.
pub fn join_lines(lines: &Vec<String>) -> (r: String)
    ensures
        r@ == lines_text(views(lines@)),
{
    let mut r = join_strings(lines, "\n");
    crate::text::push_char(&mut r, '\n');
    proof {
        reveal_strlit("\n");
        assert("\n"@ =~= seq!['\n']);
    }
    r
}

/// `after` is `before` with its existing field `key` set to the string `text`.
pub open spec fn sets_str(before: Json, after: Json, key: Seq<char>, text: Seq<char>) -> bool {
    exists|s: String| s@ == text && field_set(before, after, key, Json::Str(s))
}

/// `after` is `before` with its existing field `workspace_roots` set to the
/// one-element list `[text]`.
pub open spec fn sets_roots(before: Json, after: Json, text: Seq<char>) -> bool {
    exists|s: String, roots: Vec<Json>|
        s@ == text && roots@ == seq![Json::Str(s)] && field_set(
            before,
            after,
            "workspace_roots"@,
            Json::Array(roots),
        )
}

/// A `ClaudeCode` transcript line rewritten for `target_cwd`: its `cwd` field, when
/// it has one, now names the target.
pub fn rewrite_claude_record(v: Json, target_cwd: &str) -> (r: Json)
    ensures
        sets_str(v, r, "cwd"@, target_cwd@),
        r@ == claude_line_rewrite(v@, target_cwd@),
{
    let s = owned(target_cwd);
    let ghost g = s;
    let r = v.with_existing_field("cwd", Json::Str(s));
    assert(g@ == target_cwd@ && field_set(v, r, "cwd"@, Json::Str(g)));
    r
}

/// A `ClaudeCode` line's document rewritten for `target`: its `cwd` field, when it
/// has one, names the target.
pub open spec fn claude_line_rewrite(v: JsonView, target: Seq<char>) -> JsonView {
    v.with_field("cwd"@, JsonView::Str(target))
}

/// A Codex payload rewritten for `target`: `cwd`, when present, names the
/// target, and `workspace_roots`, when present, lists just the target.
pub open spec fn payload_rewrite(p: JsonView, target: Seq<char>) -> JsonView {
    p.with_field("cwd"@, JsonView::Str(target)).with_field(
        "workspace_roots"@,
        JsonView::Array(seq![JsonView::Str(target)]),
    )
}

/// A Codex line's document rewritten for `target`: the payload of a
/// `session_meta` or `turn_context` line is rewritten in place; every other
/// document is unchanged.
pub open spec fn codex_line_rewrite(v: JsonView, target: Seq<char>) -> JsonView {
    let kind = v.get_text("type"@);
    if kind == Some("session_meta"@) || kind == Some("turn_context"@) {
        match v {
            JsonView::Object(fields) => match key_index(fields, "payload"@) {
                Some(i) => JsonView::Object(
                    fields.update(i, (fields[i].0, payload_rewrite(fields[i].1, target))),
                ),
                None => v,
            },
            _ => v,
        }
    } else {
        v
    }
}

/// A Codex payload rewritten for `target_cwd`: `cwd`, when present, names the
/// target, and `workspace_roots`, when present, lists just the target.
pub open spec fn payload_rewritten(before: Json, after: Json, target: Seq<char>) -> bool {
    exists|mid: Json| sets_str(before, mid, "cwd"@, target) && sets_roots(mid, after, target)
}

fn rewrite_codex_payload(p: Json, target_cwd: &str) -> (r: Json)
    ensures
        payload_rewritten(p, r, target_cwd@),
        r@ == payload_rewrite(p@, target_cwd@),
{
    let s1 = owned(target_cwd);
    let ghost g1 = s1;
    let mid = p.with_existing_field("cwd", Json::Str(s1));
    let ghost m = mid;
    assert(sets_str(p, m, "cwd"@, target_cwd@));
    let s2 = owned(target_cwd);
    let ghost g2 = s2;
    let mut roots: Vec<Json> = Vec::new();
    roots.push(Json::Str(s2));
    let ghost rs = roots;
    assert(rs@ =~= seq![Json::Str(g2)]);
    proof {
        lemma_items_view(rs@);
        assert(items_view(rs@) =~= seq![JsonView::Str(target_cwd@)]);
    }
    let r = mid.with_existing_field("workspace_roots", Json::Array(roots));
    assert(sets_roots(m, r, target_cwd@));
    r
}

/// A Codex line whose payload carries the working directory: `session_meta`
/// and `turn_context`.
pub open spec fn is_context_line(v: Json) -> bool {
    v.str_field("type"@) == Some("session_meta"@) || v.str_field("type"@) == Some(
        "turn_context"@,
    )
}

/// A Codex transcript line rewritten for `target`: for a context line with a
/// payload, the payload is rewritten in place and every other field kept;
/// every other line is kept as it is.
pub open spec fn codex_rewritten(before: Json, after: Json, target: Seq<char>) -> bool {
    match before {
        Json::Object(fields) => if is_context_line(before) && field_index(
            fields@,
            "payload"@,
        ) is Some {
            let i = field_index(fields@, "payload"@).unwrap();
            match after {
                Json::Object(g) => {
                    &&& g@.len() == fields@.len()
                    &&& forall|j: int| 0 <= j < g@.len() && j != i ==> g@[j] == fields@[j]
                    &&& g@[i].0 == fields@[i].0
                    &&& payload_rewritten(fields@[i].1, g@[i].1, target)
                },
                _ => false,
            }
        } else {
            match after {
                Json::Object(g) => g@ == fields@,
                _ => false,
            }
        },
        _ => after == before,
    }
}

fn find_field(fields: &Vec<(String, Json)>, key: &str) -> (r: Option<usize>)
    ensures
        match r {
            Some(i) => field_index(fields@, key@) == Some(i as int),
            None => field_index(fields@, key@) is None,
        },
{
    let mut i: usize = 0;
    assert(fields@.skip(0) =~= fields@);
    while i < fields.len()
        invariant
            i <= fields@.len(),
            forall|j: int| 0 <= j < i ==> fields@[j].0@ != key@,
        decreases fields@.len() - i,
    {
        if str_eq(fields[i].0.as_str(), key) {
            proof {
                lemma_index_is_first(fields@, key@, i as int);
            }
            return Some(i);
        }
        i = i + 1;
    }
    proof {
        lemma_index_absent(fields@, key@);
    }
    None
}

proof fn lemma_index_is_first(fields: Seq<(String, Json)>, key: Seq<char>, i: int)
    requires
        0 <= i < fields.len(),
        fields[i].0@ == key,
        forall|j: int| 0 <= j < i ==> fields[j].0@ != key,
    ensures
        field_index(fields, key) == Some(i),
    decreases i,
{
    if i > 0 {
        lemma_index_is_first(fields.drop_first(), key, i - 1);
    }
}

proof fn lemma_index_absent(fields: Seq<(String, Json)>, key: Seq<char>)
    requires
        forall|j: int| 0 <= j < fields.len() ==> fields[j].0@ != key,
    ensures
        field_index(fields, key) is None,
    decreases fields.len(),
{
    if fields.len() > 0 {
        lemma_index_absent(fields.drop_first(), key);
    }
}

/// A Codex transcript line rewritten for `target_cwd`.
pub fn rewrite_codex_record(v: Json, target_cwd: &str) -> (r: Json)
    ensures
        codex_rewritten(v, r, target_cwd@),
        r@ == codex_line_rewrite(v@, target_cwd@),
{
    let is_context = match v.get_str("type") {
        Some(t) => str_eq(t.as_str(), "session_meta") || str_eq(t.as_str(), "turn_context"),
        None => false,
    };
    proof {
        lemma_lookup_view(v, "type"@);
    }
    match v {
        Json::Object(mut fields) => {
            let ghost f0 = fields@;
            if is_context {
                match find_field(&fields, "payload") {
                    Some(i) => {
                        proof {
                            crate::json::lemma_field_index(f0, "payload"@);
                        }
                        let (k, p) = fields.remove(i);
                        let p2 = rewrite_codex_payload(p, target_cwd);
                        fields.insert(i, (k, p2));
                        assert(fields@.len() == f0.len());
                        assert forall|j: int|
                            0 <= j < fields@.len() && j != i implies fields@[j] == f0[j] by {}
                        proof {
                            lemma_index_view(f0, "payload"@);
                            lemma_fields_view(f0);
                            lemma_fields_view(fields@);
                            assert(fields_view(fields@) =~= fields_view(f0).update(
                                i as int,
                                (f0[i as int].0@, payload_rewrite(json_view(f0[i as int].1), target_cwd@)),
                            ));
                        }
                        return Json::Object(fields);
                    },
                    None => {
                        proof {
                            lemma_index_view(f0, "payload"@);
                        }
                    },
                }
            }
            Json::Object(fields)
        },
        other => other,
    }
}

/// A transcript line as it is written back for `target`: a JSON line is
/// rewritten (as Codex writes rollouts when `codex`, else as `ClaudeCode` writes
/// transcripts) and written out compactly; any other line is kept as it is.
/// `None` when the rewritten document cannot be written.
pub open spec fn line_restored(line: Seq<char>, target: Seq<char>, codex: bool) -> Option<Seq<char>> {
    match parsed_json(line) {
        Some(v) => json_text(
            if codex {
                codex_line_rewrite(v, target)
            } else {
                claude_line_rewrite(v, target)
            },
        ),
        None => Some(line),
    }
}

/// The non-blank lines of a transcript's text, each as it is written back.
pub open spec fn restored_lines(text: Seq<char>, target: Seq<char>, codex: bool) -> Seq<
    Option<Seq<char>>,
> {
    non_blank(lines_of(text, '\n', '\r')).map_values(
        |line: Seq<char>| line_restored(line, target, codex),
    )
}

/// The text written for restored lines, each ended by a newline; `None`
/// when any of them could not be written.
pub open spec fn restored_text(lines: Seq<Option<Seq<char>>>) -> Option<Seq<char>> {
    if forall|i: int| 0 <= i < lines.len() ==> #[trigger] lines[i] is Some {
        Some(
            lines_text(
                lines.map_values(
                    |o: Option<Seq<char>>|
                        match o {
                            Some(t) => t,
                            None => Seq::empty(),
                        },
                ),
            ),
        )
    } else {
        None
    }
}

fn restore_text(text: &str, target_cwd: &str, codex: bool) -> (r: Option<String>)
    ensures
        match r {
            Some(t) => restored_text(restored_lines(text@, target_cwd@, codex)) == Some(t@),
            None => restored_text(restored_lines(text@, target_cwd@, codex)) is None,
        },
{
    let lines = transcript_lines(text);
    let ghost outs = restored_lines(text@, target_cwd@, codex);
    let mut out: Vec<String> = Vec::new();
    let mut i: usize = 0;
    while i < lines.len()
        invariant
            views(lines@) == non_blank(lines_of(text@, '\n', '\r')),
            outs == restored_lines(text@, target_cwd@, codex),
            outs.len() == lines@.len(),
            i <= lines@.len(),
            out@.len() == i,
            forall|k: int| 0 <= k < i ==> #[trigger] outs[k] == Some(out@[k]@),
        decreases lines@.len() - i,
    {
        assert(outs[i as int] == line_restored(lines@[i as int]@, target_cwd@, codex));
        let restored = match parse_json_line(lines[i].as_str()) {
            Some(v) => {
                let w = if codex {
                    rewrite_codex_record(v, target_cwd)
                } else {
                    rewrite_claude_record(v, target_cwd)
                };
                json_line_text(&w)
            },
            None => Some(lines[i].clone()),
        };
        match restored {
            Some(t) => out.push(t),
            None => {
                assert(!(outs[i as int] is Some));
                return None;
            },
        }
        i = i + 1;
    }
    let ghost texts = outs.map_values(
        |o: Option<Seq<char>>|
            match o {
                Some(t) => t,
                None => Seq::empty(),
            },
    );
    assert(views(out@) =~= texts);
    Some(join_lines(&out))
}

/// A `ClaudeCode` transcript restored for `target_cwd`: its non-blank lines, each
/// JSON line with its `cwd` set to the target and written compactly, every
/// other line as it was, each ended by a newline. `None` when a rewritten
/// line cannot be written.
pub fn restore_claude_text(text: &str, target_cwd: &str) -> (r: Option<String>)
    ensures
        match r {
            Some(t) => restored_text(restored_lines(text@, target_cwd@, false)) == Some(t@),
            None => restored_text(restored_lines(text@, target_cwd@, false)) is None,
        },
{
    restore_text(text, target_cwd, false)
}

/// A Codex rollout restored for `target_cwd`: its non-blank lines, each JSON
/// line with the payload of its context lines pointed at the target and
/// written compactly, every other line as it was, each ended by a newline.
/// `None` when a rewritten line cannot be written.
pub fn restore_codex_text(text: &str, target_cwd: &str) -> (r: Option<String>)
    ensures
        match r {
            Some(t) => restored_text(restored_lines(text@, target_cwd@, true)) == Some(t@),
            None => restored_text(restored_lines(text@, target_cwd@, true)) is None,
        },
{
    restore_text(text, target_cwd, true)
}

/// Where a `ClaudeCode` transcript is restored under the `ClaudeCode` home directory:
/// `projects/<munged target>/<session>.jsonl`.
pub open spec fn claude_destination(
    claude_home: Seq<char>,
    target_cwd: Seq<char>,
    session_id: Seq<char>,
) -> Seq<char> {
    path_join(
        path_join(path_join(claude_home, "projects"@), munged(target_cwd)),
        session_id + jsonl_suffix(),
    )
}

/// The path a `ClaudeCode` transcript of `meta` is restored to for `target_cwd`.
pub fn claude_restore_path(claude_home: &str, meta: &SessionMeta, target_cwd: &str) -> (r: String)
    ensures
        r@ == claude_destination(claude_home@, target_cwd@, meta.session_id@),
{
    let projects = join_path(claude_home, "projects");
    let dir = munge_claude_project_dir(target_cwd);
    let project = join_path(projects.as_str(), dir.as_str());
    let mut file = meta.session_id.clone();
    crate::text::append_str(&mut file, ".jsonl");
    proof {
        reveal_strlit(".jsonl");
        assert(file@ =~= meta.session_id@ + jsonl_suffix());
    }
    join_path(project.as_str(), file.as_str())
}

/// Where a Codex rollout is restored under the Codex home directory: its
/// stored relative path under `sessions`.
pub open spec fn codex_destination(codex_home: Seq<char>, relative: Seq<char>) -> Seq<char> {
    path_join(path_join(codex_home, "sessions"@), relative)
}

/// The path a Codex rollout of `meta` is restored to.
pub fn codex_restore_path(codex_home: &str, meta: &SessionMeta) -> (r: String)
    ensures
        r@ == codex_destination(codex_home@, meta.relative_store_path@),
{
    let sessions = join_path(codex_home, "sessions");
    join_path(sessions.as_str(), meta.relative_store_path.as_str())
}

proof fn lemma_key_names_differ()
    ensures
        "cwd"@ != "type"@,
        "cwd"@ != "isSidechain"@,
        "cwd"@ != "message"@,
        "cwd"@ != "timestamp"@,
{
    reveal_strlit("cwd");
    reveal_strlit("type");
    reveal_strlit("isSidechain");
    reveal_strlit("message");
    reveal_strlit("timestamp");
    assert("cwd"@.len() == 3);
    assert("type"@.len() == 4);
    assert("isSidechain"@.len() == 11);
    assert("message"@.len() == 7);
    assert("timestamp"@.len() == 9);
}

/// A transcript line rewritten for `target` keeps whether it counts as a
/// message, its timestamp and its opening text, and names `target` as its
/// working directory exactly when it named one before.
pub proof fn lemma_restored_line(v: Json, w: Json, target: Seq<char>)
    requires
        sets_str(v, w, "cwd"@, target),
    ensures
        is_counted(w) == is_counted(v),
        line_timestamp(Some(w)) == line_timestamp(Some(v)),
        line_opening(Some(w)) == line_opening(Some(v)),
        line_cwd(Some(w)) == if is_counted(v) && v.has_field("cwd"@) {
            Some(target)
        } else {
            None
        },
{
    let s = choose|s: String| s@ == target && field_set(v, w, "cwd"@, Json::Str(s));
    lemma_key_names_differ();
    crate::json::lemma_field_set_lookup(v, w, "cwd"@, Json::Str(s), "type"@);
    crate::json::lemma_field_set_lookup(v, w, "cwd"@, Json::Str(s), "isSidechain"@);
    crate::json::lemma_field_set_lookup(v, w, "cwd"@, Json::Str(s), "message"@);
    crate::json::lemma_field_set_lookup(v, w, "cwd"@, Json::Str(s), "timestamp"@);
    crate::json::lemma_field_set_lookup(v, w, "cwd"@, Json::Str(s), "cwd"@);
}

/// `after` is `before` with every parsed line rewritten for `target` and
/// every unparsed line left unparsed.
pub open spec fn transcript_restored(
    before: Seq<Option<Json>>,
    after: Seq<Option<Json>>,
    target: Seq<char>,
) -> bool {
    &&& before.len() == after.len()
    &&& forall|i: int|
        0 <= i < before.len() ==> match (#[trigger] before[i], after[i]) {
            (Some(v), Some(w)) => sets_str(v, w, "cwd"@, target),
            (None, None) => true,
            _ => false,
        }
}

/// Some message line of `records` names a working directory.
pub open spec fn names_a_cwd(records: Seq<Option<Json>>) -> bool {
    exists|i: int|
        0 <= i < records.len() && #[trigger] counted_line(records[i]) && records[i].unwrap().has_field(
            "cwd"@,
        )
}

#[verifier::spinoff_prover]
/// Scanning a restored transcript finds the same session: same message
/// count, times and title, and, for a non-empty target, the target as its
/// working directory whenever the transcript before restoring named one.
pub proof fn lemma_restored_transcript_scans_to_target(
    before: Seq<Option<Json>>,
    after: Seq<Option<Json>>,
    target: Seq<char>,
)
    requires
        transcript_restored(before, after, target),
        target.len() > 0,
    ensures
        count_where(after, |r: Option<Json>| counted_line(r)) == count_where(
            before,
            |r: Option<Json>| counted_line(r),
        ),
        first_nonempty(after, |r: Option<Json>| line_timestamp(r)) == first_nonempty(
            before,
            |r: Option<Json>| line_timestamp(r),
        ),
        last_value(after, |r: Option<Json>| line_timestamp(r)) == last_value(
            before,
            |r: Option<Json>| line_timestamp(r),
        ),
        first_nonempty(after, |r: Option<Json>| line_opening(r)) == first_nonempty(
            before,
            |r: Option<Json>| line_opening(r),
        ),
        first_nonempty(after, |r: Option<Json>| line_cwd(r)) == if names_a_cwd(before) {
            target
        } else {
            Seq::<char>::empty()
        },
    decreases before.len(),
{
    if before.len() > 0 {
        let b0 = before.drop_last();
        let a0 = after.drop_last();
        assert(transcript_restored(b0, a0, target)) by {
            assert forall|i: int| 0 <= i < b0.len() implies match (#[trigger] b0[i], a0[i]) {
                (Some(v), Some(w)) => sets_str(v, w, "cwd"@, target),
                (None, None) => true,
                _ => false,
            } by {
                assert(b0[i] == before[i] && a0[i] == after[i]);
            }
        }
        lemma_restored_transcript_scans_to_target(b0, a0, target);
        let n = before.len() - 1;
        assert(before.last() == before[n] && after.last() == after[n]);
        match (before[n], after[n]) {
            (Some(v), Some(w)) => {
                lemma_restored_line(v, w, target);
            },
            _ => {},
        }
        let f = |r: Option<Json>| line_cwd(r);
        assert(first_nonempty(after, f) == (if first_nonempty(a0, f).len() > 0 {
            first_nonempty(a0, f)
        } else {
            match f(after.last()) {
                Some(x) => x,
                None => first_nonempty(a0, f),
            }
        }));
        if names_a_cwd(before) {
            let i = choose|i: int|
                0 <= i < before.len() && #[trigger] counted_line(before[i])
                    && before[i].unwrap().has_field("cwd"@);
            if i < n {
                assert(b0[i] == before[i]);
                assert(names_a_cwd(b0));
            } else {
                assert(f(after.last()) == Some(target));
            }
        } else {
            assert(!(counted_line(before[n]) && before[n].unwrap().has_field("cwd"@)));
            assert(f(after.last()) is None);
            assert(!names_a_cwd(b0)) by {
                if names_a_cwd(b0) {
                    let i = choose|i: int|
                        0 <= i < b0.len() && #[trigger] counted_line(b0[i]) && b0[i].unwrap().has_field(
                            "cwd"@,
                        );
                    assert(b0[i] == before[i]);
                }
            }
        }
    }
}

proof fn lemma_rollout_key_names_differ()
    ensures
        "payload"@ != "type"@,
        "payload"@ != "timestamp"@,
        "cwd"@ != "id"@,
        "cwd"@ != "timestamp"@,
        "cwd"@ != "type"@,
        "cwd"@ != "role"@,
        "cwd"@ != "content"@,
        "workspace_roots"@ != "id"@,
        "workspace_roots"@ != "cwd"@,
        "workspace_roots"@ != "timestamp"@,
        "workspace_roots"@ != "type"@,
        "workspace_roots"@ != "role"@,
        "workspace_roots"@ != "content"@,
        "session_meta"@ != "response_item"@,
        "turn_context"@ != "response_item"@,
        "turn_context"@ != "session_meta"@,
{
    reveal_strlit("payload");
    reveal_strlit("type");
    reveal_strlit("timestamp");
    reveal_strlit("cwd");
    reveal_strlit("id");
    reveal_strlit("role");
    reveal_strlit("content");
    reveal_strlit("workspace_roots");
    reveal_strlit("session_meta");
    reveal_strlit("response_item");
    reveal_strlit("turn_context");
    assert("payload"@.len() == 7);
    assert("type"@.len() == 4);
    assert("timestamp"@.len() == 9);
    assert("cwd"@.len() == 3);
    assert("id"@.len() == 2);
    assert("role"@.len() == 4);
    assert("content"@.len() == 7);
    assert("workspace_roots"@.len() == 15);
    assert("session_meta"@.len() == 12);
    assert("response_item"@.len() == 13);
    assert("turn_context"@.len() == 12);
    assert("turn_context"@[0] != "session_meta"@[0]);
}

/// A rewritten payload looks up every key but `cwd` and `workspace_roots` as
/// before, and `cwd` as the target string when it had one.
proof fn lemma_payload_lookups(p: Json, q: Json, target: Seq<char>, k: Seq<char>)
    requires
        payload_rewritten(p, q, target),
    ensures
        k != "cwd"@ && k != "workspace_roots"@ ==> q.lookup(k) == p.lookup(k),
        q.str_field("cwd"@) == if p.has_field("cwd"@) {
            Some(target)
        } else {
            None::<Seq<char>>
        },
{
    lemma_rollout_key_names_differ();
    let mid = choose|mid: Json| sets_str(p, mid, "cwd"@, target) && sets_roots(mid, q, target);
    let s = choose|s: String| s@ == target && field_set(p, mid, "cwd"@, Json::Str(s));
    let (s2, roots) = choose|s2: String, roots: Vec<Json>|
        s2@ == target && roots@ == seq![Json::Str(s2)] && field_set(
            mid,
            q,
            "workspace_roots"@,
            Json::Array(roots),
        );
    crate::json::lemma_field_set_lookup(p, mid, "cwd"@, Json::Str(s), k);
    crate::json::lemma_field_set_lookup(mid, q, "workspace_roots"@, Json::Array(roots), k);
    crate::json::lemma_field_set_lookup(p, mid, "cwd"@, Json::Str(s), "cwd"@);
    crate::json::lemma_field_set_lookup(mid, q, "workspace_roots"@, Json::Array(roots), "cwd"@);
}

/// A rollout line rewritten for `target` keeps whether it is a message, its
/// timestamp and opening text, and the id and start time a `session_meta`
/// line gives; a `session_meta` payload that named a working directory now
/// names `target`.
pub proof fn lemma_restored_rollout_line(v: Json, w: Json, target: Seq<char>)
    requires
        codex_rewritten(v, w, target),
    ensures
        is_message(Some(w)) == is_message(Some(v)),
        message_timestamp(Some(w)) == message_timestamp(Some(v)),
        message_opening(Some(w)) == message_opening(Some(v)),
        is_session_meta(Some(w)) == is_session_meta(Some(v)),
        meta_field(Some(w), "id"@) == meta_field(Some(v), "id"@),
        meta_field(Some(w), "timestamp"@) == meta_field(Some(v), "timestamp"@),
        meta_field(Some(w), "cwd"@) == if is_session_meta(Some(v)) && v.lookup(
            "payload"@,
        ).unwrap().has_field("cwd"@) {
            Some(target)
        } else {
            meta_field(Some(v), "cwd"@)
        },
{
    lemma_rollout_key_names_differ();
    match v {
        Json::Object(fields) => {
            if is_context_line(v) && field_index(fields@, "payload"@) is Some {
                let i = field_index(fields@, "payload"@).unwrap();
                crate::json::lemma_field_index(fields@, "payload"@);
                let g = match w {
                    Json::Object(g) => g,
                    _ => fields,
                };
                assert(g@ =~= crate::json::replace_value(fields@, i, g@[i].1));
                crate::json::lemma_replace_lookup(fields@, "payload"@, g@[i].1, "type"@);
                crate::json::lemma_replace_lookup(fields@, "payload"@, g@[i].1, "timestamp"@);
                crate::json::lemma_replace_lookup(fields@, "payload"@, g@[i].1, "payload"@);
                let p = fields@[i].1;
                let q = g@[i].1;
                assert(v.lookup("payload"@) == Some(p));
                assert(w.lookup("payload"@) == Some(q));
                lemma_payload_lookups(p, q, target, "id"@);
                lemma_payload_lookups(p, q, target, "timestamp"@);
                lemma_payload_lookups(p, q, target, "type"@);
                lemma_payload_lookups(p, q, target, "role"@);
                lemma_payload_lookups(p, q, target, "content"@);
                lemma_payload_lookups(p, q, target, "cwd"@);
                assert(input_text_of(q) == input_text_of(p));
                if is_session_meta(Some(v)) {
                    assert(meta_field(Some(v), "cwd"@) == Some(match p.str_field("cwd"@) {
                        Some(c) => c,
                        None => Seq::<char>::empty(),
                    }));
                    assert(meta_field(Some(w), "cwd"@) == Some(match q.str_field("cwd"@) {
                        Some(c) => c,
                        None => Seq::<char>::empty(),
                    }));
                    if p.has_field("cwd"@) {
                        assert(q.str_field("cwd"@) == Some(target));
                    } else {
                        assert(p.str_field("cwd"@) is None);
                    }
                }
            } else {
                crate::json::lemma_field_index(fields@, "payload"@);
                let g = match w {
                    Json::Object(g) => g,
                    _ => fields,
                };
                assert(g@ == fields@);
                assert(w.lookup("type"@) == v.lookup("type"@));
                assert(w.lookup("payload"@) == v.lookup("payload"@));
                assert(w.lookup("timestamp"@) == v.lookup("timestamp"@));
            }
        },
        _ => {},
    }
}

/// `after` is the rollout `before` with every parsed line rewritten for
/// `target` and every unparsed line left unparsed.
pub open spec fn rollout_restored(
    before: Seq<Option<Json>>,
    after: Seq<Option<Json>>,
    target: Seq<char>,
) -> bool {
    &&& before.len() == after.len()
    &&& forall|i: int|
        0 <= i < before.len() ==> match (#[trigger] before[i], after[i]) {
            (Some(v), Some(w)) => codex_rewritten(v, w, target),
            (None, None) => true,
            _ => false,
        }
}

/// The last `session_meta` line of `records` has a payload naming a working
/// directory.
pub open spec fn last_meta_names_cwd(records: Seq<Option<Json>>) -> bool
    decreases records.len(),
{
    if records.len() == 0 {
        false
    } else if is_session_meta(records.last()) {
        records.last().unwrap().lookup("payload"@).unwrap().has_field("cwd"@)
    } else {
        last_meta_names_cwd(records.drop_last())
    }
}

/// Scanning a restored rollout finds the same session: same id, start time,
/// message count, last activity and title, and `target` as its working
/// directory whenever the rollout's last `session_meta` line named one.
#[verifier::spinoff_prover]
pub proof fn lemma_restored_rollout_scans_to_target(
    before: Seq<Option<Json>>,
    after: Seq<Option<Json>>,
    target: Seq<char>,
)
    requires
        rollout_restored(before, after, target),
    ensures
        last_value(after, |r: Option<Json>| meta_field(r, "id"@)) == last_value(
            before,
            |r: Option<Json>| meta_field(r, "id"@),
        ),
        last_value(after, |r: Option<Json>| meta_field(r, "timestamp"@)) == last_value(
            before,
            |r: Option<Json>| meta_field(r, "timestamp"@),
        ),
        count_where(after, |r: Option<Json>| is_message(r)) == count_where(
            before,
            |r: Option<Json>| is_message(r),
        ),
        last_value(after, |r: Option<Json>| message_timestamp(r)) == last_value(
            before,
            |r: Option<Json>| message_timestamp(r),
        ),
        first_nonempty(after, |r: Option<Json>| message_opening(r)) == first_nonempty(
            before,
            |r: Option<Json>| message_opening(r),
        ),
        last_value(after, |r: Option<Json>| meta_field(r, "cwd"@)) == if last_meta_names_cwd(
            before,
        ) {
            target
        } else {
            last_value(before, |r: Option<Json>| meta_field(r, "cwd"@))
        },
    decreases before.len(),
{
    if before.len() > 0 {
        let b0 = before.drop_last();
        let a0 = after.drop_last();
        assert(rollout_restored(b0, a0, target)) by {
            assert forall|i: int| 0 <= i < b0.len() implies match (#[trigger] b0[i], a0[i]) {
                (Some(v), Some(w)) => codex_rewritten(v, w, target),
                (None, None) => true,
                _ => false,
            } by {
                assert(b0[i] == before[i] && a0[i] == after[i]);
            }
        }
        lemma_restored_rollout_scans_to_target(b0, a0, target);
        let n = before.len() - 1;
        assert(before.last() == before[n] && after.last() == after[n]);
        match (before[n], after[n]) {
            (Some(v), Some(w)) => {
                lemma_restored_rollout_line(v, w, target);
            },
            _ => {},
        }
    }
}

} // verus!
