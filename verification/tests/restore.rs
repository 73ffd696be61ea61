use ai_session_manager::json::Json;
use ai_session_manager::model::{SessionMeta, SessionSource};
use ai_session_manager::restore::{
    claude_restore_path, codex_restore_path, join_lines, restore_claude_text, restore_codex_text,
    rewrite_claude_record, rewrite_codex_record, transcript_lines,
};
use serde_json::Value;
use ai_session_manager::text::{text_lines, byte_lines, trim};

fn s(text: &str) -> Json {
    Json::Str(text.to_string())
}

fn obj(fields: Vec<(&str, Json)>) -> Json {
    Json::Object(fields.into_iter().map(|(k, v)| (k.to_string(), v)).collect())
}

fn field<'a>(v: &'a Json, key: &str) -> Option<&'a Json> {
    v.get(key)
}

fn str_of(v: Option<&Json>) -> Option<&str> {
    match v {
        Some(Json::Str(s)) => Some(s.as_str()),
        _ => None,
    }
}

fn meta(id: &str, rel: &str) -> SessionMeta {
    SessionMeta {
        schema_version: 1,
        session_id: id.into(),
        source: SessionSource::ClaudeCode,
        title: "t".into(),
        description: String::new(),
        tags: vec![],
        starred: false,
        origin_device_id: "dev-a".into(),
        origin_cwd: r"E:\fake\proj".into(),
        relative_store_path: rel.into(),
        started_at: "".into(),
        last_active_at: "".into(),
        updated_at: "2026-07-05T00:00:00Z".into(),
    }
}

#[test]
fn restore_paths_munge_the_target_directory() {
    let m = meta("11111111-aaaa-bbbb-cccc-000000000001", "E--fake-proj/x.jsonl");
    let out = claude_restore_path("/home/b/.cc", &m, "/Users/sybil/code/proj");
    assert!(out.ends_with("projects/-Users-sybil-code-proj/11111111-aaaa-bbbb-cccc-000000000001.jsonl"));
    assert_eq!(out, "/home/b/.cc/projects/-Users-sybil-code-proj/11111111-aaaa-bbbb-cccc-000000000001.jsonl");
    let m = meta("22", "2026/06/21/rollout-x.jsonl");
    assert_eq!(codex_restore_path("/home/b/.codex", &m), "/home/b/.codex/sessions/2026/06/21/rollout-x.jsonl");
}

#[test]
fn claude_lines_get_the_target_cwd() {
    let line = obj(vec![
        ("type", s("user")),
        ("uuid", s("u-1")),
        ("cwd", s(r"E:\fake\proj")),
        ("message", obj(vec![("content", s("帮我修 bug"))])),
    ]);
    let out = rewrite_claude_record(line, "/Users/sybil/code/proj");
    assert_eq!(str_of(field(&out, "cwd")), Some("/Users/sybil/code/proj"));
    assert_eq!(str_of(field(field(&out, "message").unwrap(), "content")), Some("帮我修 bug"));
    let plain = rewrite_claude_record(obj(vec![("type", s("summary"))]), "/x");
    assert!(field(&plain, "cwd").is_none());
}

#[test]
fn codex_context_lines_get_the_target_cwd_and_roots() {
    let line = obj(vec![
        ("type", s("turn_context")),
        (
            "payload",
            obj(vec![("cwd", s(r"E:\fake\proj")), ("workspace_roots", Json::Array(vec![s("a"), s("b")]))]),
        ),
    ]);
    let out = rewrite_codex_record(line, "/Users/sybil/code/proj");
    let payload = field(&out, "payload").unwrap();
    assert_eq!(str_of(field(payload, "cwd")), Some("/Users/sybil/code/proj"));
    match field(payload, "workspace_roots") {
        Some(Json::Array(items)) => {
            assert_eq!(items.len(), 1);
            assert_eq!(str_of(items.first()), Some("/Users/sybil/code/proj"));
        }
        _ => panic!("roots missing"),
    }
    let item = obj(vec![("type", s("response_item")), ("payload", obj(vec![("cwd", s("keep"))]))]);
    let out = rewrite_codex_record(item, "/x");
    assert_eq!(str_of(field(field(&out, "payload").unwrap(), "cwd")), Some("keep"));
    let meta_line = obj(vec![("type", s("session_meta")), ("payload", obj(vec![("id", s("i"))]))]);
    let out = rewrite_codex_record(meta_line, "/x");
    assert!(field(field(&out, "payload").unwrap(), "cwd").is_none());
}

#[test]
fn transcript_lines_skip_blank_ones() {
    let lines = transcript_lines("{\"a\":1}\r\n  \n\n{\"b\":2}\n\t");
    assert_eq!(lines, vec!["{\"a\":1}", "{\"b\":2}"]);
    assert_eq!(join_lines(&lines), "{\"a\":1}\n{\"b\":2}\n");
}

#[test]
fn line_framing_matches_std() {
    for text in ["a\nb", "a\r\nb\r\n", "a\rb\r", "\n\nx", "", "only"] {
        let expect: Vec<String> = text.lines().map(|l| l.to_string()).collect();
        assert_eq!(text_lines(text), expect);
        let framed = byte_lines(text.as_bytes());
        let expect_bytes: Vec<Vec<u8>> = expect.iter().map(|l| l.as_bytes().to_vec()).collect();
        assert_eq!(framed, expect_bytes);
    }
    assert_eq!(trim("\u{3000} x y \n"), "x y");
}

#[test]
fn restored_transcript_scans_to_the_target_directory() {
    let lines = vec![
        Some(obj(vec![("type", s("summary"))])),
        Some(obj(vec![
            ("type", s("user")),
            ("cwd", s(r"E:\fake\proj")),
            ("timestamp", s("2026-07-05T02:46:20.453Z")),
            ("message", obj(vec![("content", s("帮我修 bug"))])),
        ])),
        None,
    ];
    let restored: Vec<Option<Json>> = lines
        .into_iter()
        .map(|l| l.map(|v| rewrite_claude_record(v, "/Users/b/work/proj")))
        .collect();
    let summary = ai_session_manager::scan_claude::parse_session_file(
        "/h/projects/-Users-b-work-proj/x.jsonl",
        "x",
        "-Users-b-work-proj",
        &restored,
    )
    .unwrap();
    assert_eq!(summary.cwd, "/Users/b/work/proj");
    assert_eq!(summary.message_count, 1);
    assert_eq!(summary.first_message, "帮我修 bug");
}

#[test]
fn restored_rollout_scans_to_the_target_directory() {
    let lines = vec![
        Some(obj(vec![
            ("type", s("session_meta")),
            ("payload", obj(vec![("id", s("22")), ("cwd", s(r"E:\fake\proj")), ("timestamp", s("t0"))])),
        ])),
        Some(obj(vec![
            ("type", s("response_item")),
            ("timestamp", s("t1")),
            (
                "payload",
                obj(vec![
                    ("type", s("message")),
                    ("role", s("user")),
                    ("content", Json::Array(vec![obj(vec![("text", s("hi"))])])),
                ]),
            ),
        ])),
    ];
    let restored: Vec<Option<Json>> = lines
        .into_iter()
        .map(|l| l.map(|v| rewrite_codex_record(v, "/Users/b/work/proj")))
        .collect();
    let summary = ai_session_manager::scan_codex::parse_session_file("/r.jsonl", "r.jsonl", &restored).unwrap();
    assert_eq!(summary.cwd, "/Users/b/work/proj");
    assert_eq!(summary.session_id, "22");
    assert_eq!(summary.started_at, "t0");
    assert_eq!(summary.last_active_at, "t1");
    assert_eq!(summary.first_message, "hi");
}

#[test]
fn restore_claude_rewrites_cwd_and_munges_dir() {
    let m = meta(
        "11111111-aaaa-bbbb-cccc-000000000001",
        "E--fake-proj/11111111-aaaa-bbbb-cccc-000000000001.jsonl",
    );
    let out = claude_restore_path("/tmp/x/.home", &m, "/Users/sybil/code/proj");
    assert!(std::path::Path::new(&out).ends_with(std::path::Path::new(
        "projects/-Users-sybil-code-proj/11111111-aaaa-bbbb-cccc-000000000001.jsonl"
    )));

    let src = r#"{"type":"summary","summary":"bug"}
{"type":"user","uuid":"u-1","cwd":"E:\\fake\\proj","message":{"role":"user","content":"帮我修 bug"}}

{"type":"assistant","uuid":"a-1","cwd":"E:\\fake\\proj"}
"#;
    let text = restore_claude_text(src, "/Users/sybil/code/proj").unwrap();
    let mut saw_message = false;
    for line in text.lines() {
        let v: Value = serde_json::from_str(line).unwrap();
        if let Some(cwd) = v.get("cwd") {
            assert_eq!(cwd.as_str().unwrap(), "/Users/sybil/code/proj");
            saw_message = true;
        }
        if v.get("uuid").and_then(Value::as_str) == Some("u-1") {
            assert_eq!(v["message"]["content"].as_str().unwrap(), "帮我修 bug");
        }
    }
    assert!(saw_message);
}

#[test]
fn restore_codex_rewrites_session_meta_and_turn_context() {
    let mut m = meta("22222222-aaaa-bbbb-cccc-000000000002", "");
    m.source = SessionSource::Codex;
    m.relative_store_path =
        "2026/06/21/rollout-2026-06-21T10-54-52-22222222-aaaa-bbbb-cccc-000000000002.jsonl".into();
    let out = codex_restore_path("/tmp/x/.codex", &m);
    assert!(out.replace('\\', "/").ends_with(
        "sessions/2026/06/21/rollout-2026-06-21T10-54-52-22222222-aaaa-bbbb-cccc-000000000002.jsonl"
    ));

    let src = r#"{"type":"session_meta","payload":{"id":"22222222-aaaa-bbbb-cccc-000000000002","cwd":"E:\\fake\\proj"}}
{"type":"turn_context","payload":{"cwd":"E:\\fake\\proj","workspace_roots":["E:\\fake\\proj"]}}
{"type":"response_item","payload":{"type":"message"}}
"#;
    let text = restore_codex_text(src, "/Users/sybil/code/proj").unwrap();
    for line in text.lines() {
        let v: Value = serde_json::from_str(line).unwrap();
        match v.get("type").and_then(Value::as_str) {
            Some("session_meta") => {
                assert_eq!(v["payload"]["cwd"].as_str().unwrap(), "/Users/sybil/code/proj");
            }
            Some("turn_context") => {
                assert_eq!(v["payload"]["cwd"].as_str().unwrap(), "/Users/sybil/code/proj");
                assert_eq!(v["payload"]["workspace_roots"][0].as_str().unwrap(), "/Users/sybil/code/proj");
            }
            _ => {}
        }
    }
}

#[test]
fn restored_claude_text_is_exact() {
    let src = "{\"type\":\"user\",\"cwd\":\"/a\"}\n\n   \nplain text\r\n{\"x\":1,\"n\":-2.5}\n{\"cwd\":5}";
    assert_eq!(
        restore_claude_text(src, "/b").unwrap(),
        "{\"cwd\":\"/b\",\"type\":\"user\"}\nplain text\n{\"n\":-2.5,\"x\":1}\n{\"cwd\":\"/b\"}\n"
    );
}

#[test]
fn restored_codex_text_is_exact() {
    let src = "{\"type\":\"turn_context\",\"payload\":{\"cwd\":\"/a\",\"workspace_roots\":[\"/a\",\"/c\"],\"model\":\"m\"}}\n\
{\"type\":\"session_meta\",\"payload\":{\"id\":\"s\"}}\n\
{\"type\":\"response_item\",\"payload\":{\"cwd\":\"/a\"}}\n\
{\"type\":\"session_meta\"}\n";
    assert_eq!(
        restore_codex_text(src, "/b").unwrap(),
        "{\"payload\":{\"cwd\":\"/b\",\"model\":\"m\",\"workspace_roots\":[\"/b\"]},\"type\":\"turn_context\"}\n\
{\"payload\":{\"id\":\"s\"},\"type\":\"session_meta\"}\n\
{\"payload\":{\"cwd\":\"/a\"},\"type\":\"response_item\"}\n\
{\"type\":\"session_meta\"}\n"
    );
}

#[test]
fn restoring_an_empty_transcript_gives_a_lone_newline() {
    assert_eq!(restore_claude_text("", "/b").unwrap(), "\n");
    assert_eq!(restore_codex_text("\n \n", "/b").unwrap(), "\n");
}
