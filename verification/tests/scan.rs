use ai_session_manager::json::Json;
use ai_session_manager::model::SessionSource;
use ai_session_manager::records::transcript_records;
use ai_session_manager::scan_claude::{self, parse_session_file, ScanError};
use ai_session_manager::scan_codex;
use ai_session_manager::tree::{Entry, Node};

fn s(text: &str) -> Json {
    Json::Str(text.to_string())
}

fn obj(fields: Vec<(&str, Json)>) -> Json {
    Json::Object(fields.into_iter().map(|(k, v)| (k.to_string(), v)).collect())
}

const CLAUDE_JSONL: &str = r#"{"type":"summary","summary":"bug fix"}
{"type":"user","uuid":"u-1","cwd":"E:\\fake\\proj","timestamp":"2026-07-05T02:46:20.453Z","message":{"role":"user","content":"帮我修 bug"}}
this line is not JSON
{"type":"assistant","uuid":"a-1","cwd":"E:\\fake\\proj","timestamp":"2026-07-05T02:48:00.000Z","message":{"role":"assistant","content":[{"type":"text","text":"好的"}]}}
{"type":"user","isSidechain":true,"timestamp":"2026-07-05T02:49:00.000Z","message":{"content":"side"}}
{"type":"user","uuid":"u-2","cwd":"E:\\fake\\proj","timestamp":"2026-07-05T02:50:00.000Z","message":{"content":[{"type":"tool_result","content":"ok"}]}}
"#;

const CODEX_JSONL: &str = r#"{"timestamp":"2026-06-21T02:54:52.130Z","type":"session_meta","payload":{"id":"22222222-aaaa-bbbb-cccc-000000000002","timestamp":"2026-06-21T02:54:52.130Z","cwd":"E:\\fake\\proj"}}
{"timestamp":"2026-06-21T02:54:53.000Z","type":"response_item","payload":{"type":"message","role":"user","content":[{"type":"input_text","text":"<environment_context>cwd</environment_context>"}]}}
{"timestamp":"2026-06-21T02:54:54.000Z","type":"turn_context","payload":{"cwd":"E:\\fake\\proj","workspace_roots":["E:\\fake\\proj"]}}
{"timestamp":"2026-06-21T02:55:00.000Z","type":"response_item","payload":{"type":"message","role":"user","content":[{"type":"input_text","text":"帮我重构这个函数"}]}}
not JSON either
{"timestamp":"2026-06-21T02:55:05.000Z","type":"response_item","payload":{"type":"reasoning","summary":[]}}
{"timestamp":"2026-06-21T02:55:10.000Z","type":"response_item","payload":{"type":"message","role":"assistant","content":[{"type":"output_text","text":"好的"}]}}
"#;

fn claude_fixture() -> Vec<Option<Json>> {
    transcript_records(CLAUDE_JSONL.as_bytes())
}

fn codex_fixture() -> Vec<Option<Json>> {
    transcript_records(CODEX_JSONL.as_bytes())
}

const CLAUDE_FILE: &str = "11111111-aaaa-bbbb-cccc-000000000001.jsonl";
const CODEX_FILE: &str = "rollout-2026-06-21T10-54-52-22222222-aaaa-bbbb-cccc-000000000002.jsonl";

fn entry(name: &str, path: &str, node: Node) -> Entry {
    Entry { name: name.to_string(), path: path.to_string(), node }
}

fn claude_tree() -> Node {
    let root = "/fixtures/projects";
    let proj = format!("{}/E--fake-proj", root);
    Node::Dir(Some(vec![
        entry("README.md", &format!("{}/README.md", root), Node::File(None)),
        entry(
            "E--fake-proj",
            &proj,
            Node::Dir(Some(vec![
                entry(CLAUDE_FILE, &format!("{}/{}", proj, CLAUDE_FILE), Node::File(Some(claude_fixture()))),
                entry("notes.txt", &format!("{}/notes.txt", proj), Node::File(Some(vec![]))),
                entry("empty.jsonl", &format!("{}/empty.jsonl", proj), Node::File(Some(vec![None]))),
            ])),
        ),
    ]))
}

fn codex_tree() -> Node {
    let day = "/fixtures/codex/2026/06/21";
    Node::Dir(Some(vec![entry(
        "2026",
        "/fixtures/codex/2026",
        Node::Dir(Some(vec![entry(
            "06",
            "/fixtures/codex/2026/06",
            Node::Dir(Some(vec![entry(
                "21",
                day,
                Node::Dir(Some(vec![
                    entry(CODEX_FILE, &format!("{}/{}", day, CODEX_FILE), Node::File(Some(codex_fixture()))),
                    entry("broken.jsonl", &format!("{}/broken.jsonl", day), Node::File(None)),
                ])),
            )])),
        )])),
    )]))
}

#[test]
fn parse_fixture_session() {
    let path = "/fixtures/projects/E--fake-proj/11111111-aaaa-bbbb-cccc-000000000001.jsonl";
    let s = parse_session_file(
        path,
        "11111111-aaaa-bbbb-cccc-000000000001",
        "E--fake-proj",
        &claude_fixture(),
    )
    .unwrap();
    assert_eq!(s.session_id, "11111111-aaaa-bbbb-cccc-000000000001");
    assert_eq!(s.cwd, r"E:\fake\proj");
    assert_eq!(s.first_message, "帮我修 bug");
    assert_eq!(s.message_count, 3);
    assert_eq!(s.started_at, "2026-07-05T02:46:20.453Z");
    assert_eq!(s.last_active_at, "2026-07-05T02:50:00.000Z");
    assert_eq!(
        s.relative_store_path,
        "E--fake-proj/11111111-aaaa-bbbb-cccc-000000000001.jsonl"
    );
    assert!(matches!(s.source, SessionSource::ClaudeCode));
}

#[test]
fn scan_dir_finds_all_sessions() {
    let sessions = scan_claude::scan(&claude_tree()).unwrap();
    assert_eq!(sessions.len(), 1);
}

#[test]
fn scan_claude_scan_missing_dir_returns_empty() {
    let sessions = scan_claude::scan(&Node::Dir(None)).unwrap();
    assert!(sessions.is_empty());
}

#[test]
fn parse_fixture_rollout() {
    let path = "/fixtures/codex/2026/06/21/rollout-2026-06-21T10-54-52-22222222-aaaa-bbbb-cccc-000000000002.jsonl";
    let s = scan_codex::parse_session_file(
        path,
        "2026/06/21/rollout-2026-06-21T10-54-52-22222222-aaaa-bbbb-cccc-000000000002.jsonl",
        &codex_fixture(),
    )
    .unwrap();
    assert_eq!(s.session_id, "22222222-aaaa-bbbb-cccc-000000000002");
    assert_eq!(s.cwd, r"E:\fake\proj");
    assert_eq!(s.first_message, "帮我重构这个函数");
    assert_eq!(s.message_count, 3);
    assert_eq!(s.started_at, "2026-06-21T02:54:52.130Z");
    assert_eq!(s.last_active_at, "2026-06-21T02:55:10.000Z");
    assert_eq!(
        s.relative_store_path,
        "2026/06/21/rollout-2026-06-21T10-54-52-22222222-aaaa-bbbb-cccc-000000000002.jsonl"
    );
    assert!(matches!(s.source, SessionSource::Codex));
}

#[test]
fn scan_walks_date_tree() {
    let sessions = scan_codex::scan(&codex_tree()).unwrap();
    assert_eq!(sessions.len(), 1);
    assert_eq!(
        sessions[0].relative_store_path,
        "2026/06/21/rollout-2026-06-21T10-54-52-22222222-aaaa-bbbb-cccc-000000000002.jsonl"
    );
}

#[test]
fn scan_codex_scan_missing_dir_returns_empty() {
    assert!(scan_codex::scan(&Node::Dir(None)).unwrap().is_empty());
}

#[test]
fn claude_transcript_without_messages_is_rejected() {
    let records = vec![Some(obj(vec![("type", s("summary"))])), None];
    assert_eq!(
        parse_session_file("/p/x.jsonl", "x", "p", &records).unwrap_err(),
        ScanError::NoMessages
    );
}

#[test]
fn codex_rollout_without_session_meta_is_rejected() {
    let records = vec![Some(obj(vec![
        ("type", s("response_item")),
        ("payload", obj(vec![("type", s("message")), ("role", s("user"))])),
    ]))];
    assert_eq!(
        scan_codex::parse_session_file("/r.jsonl", "r.jsonl", &records).unwrap_err(),
        ScanError::NoSessionMeta
    );
}

#[test]
fn claude_first_message_is_cut_to_200_characters() {
    let long: String = std::iter::repeat('字').take(250).collect();
    let records = vec![Some(obj(vec![
        ("type", s("user")),
        ("message", obj(vec![("content", s(&long))])),
    ]))];
    let summary = parse_session_file("/p/x.jsonl", "x", "p", &records).unwrap();
    assert_eq!(summary.first_message.chars().count(), 200);
    assert_eq!(summary.cwd, "");
    assert_eq!(summary.started_at, "");
}

#[test]
fn claude_text_blocks_are_joined_with_newlines() {
    let content = Json::Array(vec![
        obj(vec![("type", s("text")), ("text", s("one"))]),
        obj(vec![("type", s("image"))]),
        obj(vec![("type", s("text")), ("text", s("two"))]),
    ]);
    assert_eq!(scan_claude::content_text(&content), "one\ntwo");
    assert_eq!(scan_claude::content_text(&Json::Null), "");
}

#[test]
fn codex_input_text_joins_every_text_field() {
    let payload = obj(vec![(
        "content",
        Json::Array(vec![obj(vec![("text", s("a"))]), obj(vec![("x", s("b"))]), obj(vec![("text", s("c"))])]),
    )]);
    assert_eq!(scan_codex::input_text(&payload), "a\nc");
    assert_eq!(scan_codex::input_text(&obj(vec![("content", s("plain"))])), "");
}

#[test]
fn codex_walk_uses_slashes_for_backslashes_in_names() {
    let tree = Node::Dir(Some(vec![entry(
        r"a\b",
        "/root/a\\b",
        Node::Dir(Some(vec![entry("x.jsonl", "/root/a\\b/x.jsonl", Node::File(Some(codex_fixture())))])),
    )]));
    let sessions = scan_codex::scan(&tree).unwrap();
    assert_eq!(sessions[0].relative_store_path, "a/b/x.jsonl");
    assert_eq!(sessions[0].transcript_path, "/root/a\\b/x.jsonl");
}

#[test]
fn claude_scan_ignores_files_directly_under_the_root() {
    let tree = Node::Dir(Some(vec![entry(
        CLAUDE_FILE,
        "/c/x.jsonl",
        Node::File(Some(claude_fixture())),
    )]));
    assert!(scan_claude::scan(&tree).unwrap().is_empty());
}

#[test]
fn transcript_records_frame_decode_and_parse_each_line() {
    let bytes: &[u8] = b"{\"a\":1}\r\nnot json\n\xff\xfe\n\n[true,null,\"x\"]";
    let records = transcript_records(bytes);
    assert_eq!(records.len(), 5);
    match &records[0] {
        Some(Json::Object(fields)) => {
            assert_eq!(fields.len(), 1);
            assert_eq!(fields[0].0, "a");
            assert!(matches!(&fields[0].1, Json::Number(t) if t == "1"));
        }
        other => panic!("unexpected {:?}", other),
    }
    assert!(records[1].is_none());
    assert!(records[2].is_none());
    assert!(records[3].is_none());
    match &records[4] {
        Some(Json::Array(items)) => {
            assert_eq!(items.len(), 3);
            assert!(matches!(items[0], Json::Bool(true)));
            assert!(matches!(items[1], Json::Null));
            assert!(matches!(&items[2], Json::Str(t) if t == "x"));
        }
        other => panic!("unexpected {:?}", other),
    }
}
