use pasua::json::{json_eq, Json, JsonNumber, Member};
use pasua::lsp_confirmation::LspSymbol;
use pasua::semantic::{
    classify_message, flatten_symbols, frame_header, header_line, indexing_done, indexing_step, notification_message,
    request_message, response_step, server_reply, HeaderLine, IndexingEvent, IndexingState, MessageKind, ResponseStep,
};

fn s(v: &str) -> Json {
    Json::Str(v.to_string())
}

fn n(v: u64) -> Json {
    Json::Number(JsonNumber::PosInt(v))
}

fn obj(members: Vec<(&str, Json)>) -> Vec<Member> {
    members.into_iter().map(|(k, v)| Member { key: k.to_string(), value: v }).collect()
}

fn progress_notification(kind: &str) -> Vec<Member> {
    obj(vec![
        ("jsonrpc", s("2.0")),
        ("method", s("$/progress")),
        ("params", Json::Object(obj(vec![("token", s("1")), ("value", Json::Object(obj(vec![("kind", s(kind))])))]))),
    ])
}

fn server_request(method: &str) -> Vec<Member> {
    obj(vec![("jsonrpc", s("2.0")), ("id", n(1)), ("method", s(method)), ("params", Json::Object(vec![]))])
}

fn response_msg(id: u64, result: Json) -> Vec<Member> {
    obj(vec![("jsonrpc", s("2.0")), ("id", n(id)), ("result", result)])
}

#[test]
fn indexing_end_classified() {
    assert!(matches!(classify_message(progress_notification("end")), MessageKind::ProgressEnd { .. }));
}

#[test]
fn indexing_begin_classified() {
    assert!(matches!(classify_message(progress_notification("begin")), MessageKind::ProgressBegin { .. }));
}

#[test]
fn server_request_classified() {
    assert!(matches!(classify_message(server_request("window/workDoneProgress/create")), MessageKind::ServerRequest { .. }));
}

#[test]
fn response_classified() {
    let msg = response_msg(5, Json::Array(vec![n(1), n(2), n(3)]));
    assert!(matches!(classify_message(msg), MessageKind::Response { id: 5, .. }));
}

#[test]
fn report_notification_is_other() {
    assert!(matches!(classify_message(progress_notification("report")), MessageKind::Other));
}

#[test]
fn progress_begin_title_extracted() {
    let msg = obj(vec![
        ("jsonrpc", s("2.0")),
        ("method", s("$/progress")),
        (
            "params",
            Json::Object(obj(vec![
                ("token", s("tok1")),
                ("value", Json::Object(obj(vec![("kind", s("begin")), ("title", s("Loading Packages"))]))),
            ])),
        ),
    ]);
    assert!(matches!(classify_message(msg), MessageKind::ProgressBegin { title, .. } if title == "Loading Packages"));
}

#[test]
fn response_falls_back_to_error_then_null() {
    let msg = obj(vec![("id", n(3)), ("error", s("boom"))]);
    match classify_message(msg) {
        MessageKind::Response { id, result } => {
            assert_eq!(id, 3);
            assert!(json_eq(&result, &s("boom")));
        }
        other => panic!("unexpected {other:?}"),
    }
    match classify_message(obj(vec![("id", n(4))])) {
        MessageKind::Response { result, .. } => assert!(json_eq(&result, &Json::Null)),
        other => panic!("unexpected {other:?}"),
    }
    assert!(matches!(classify_message(obj(vec![("id", s("x"))])), MessageKind::Other));
    assert!(matches!(classify_message(obj(vec![("method", s("textDocument/publishDiagnostics"))])), MessageKind::Other));
    assert!(matches!(classify_message(vec![]), MessageKind::Other));
}

#[test]
fn progress_token_is_kept() {
    match classify_message(progress_notification("end")) {
        MessageKind::ProgressEnd { token } => assert!(json_eq(&token, &s("1"))),
        other => panic!("unexpected {other:?}"),
    }
}

fn position(line: u64, ch: u64) -> Json {
    Json::Object(obj(vec![("line", n(line)), ("character", n(ch))]))
}

fn range(a: u64, b: u64) -> Json {
    Json::Object(obj(vec![("start", position(a, 0)), ("end", position(b, 4))]))
}

fn doc_symbol(name: &str, kind: u64, line: u64, children: Option<Vec<Json>>) -> Json {
    let mut m = obj(vec![("name", s(name)), ("kind", n(kind)), ("range", range(line, line + 9)), ("selectionRange", range(line, line))]);
    if let Some(c) = children {
        m.push(Member { key: "children".to_string(), value: Json::Array(c) });
    }
    Json::Object(m)
}

fn names(v: &[LspSymbol]) -> Vec<&str> {
    v.iter().map(|s| s.name.as_str()).collect()
}

#[test]
fn hierarchical_symbols_are_flattened_depth_first() {
    let raw = Json::Array(vec![
        doc_symbol("Server", 23, 1, Some(vec![doc_symbol("start", 6, 3, None), doc_symbol("stop", 6, 7, Some(vec![]))])),
        doc_symbol("main", 12, 20, None),
    ]);
    let syms = flatten_symbols(&raw);
    assert_eq!(names(&syms), vec!["Server", "start", "stop", "main"]);
    assert_eq!((syms[1].kind, syms[1].start_line, syms[1].end_line), (6, 3, 3));
}

#[test]
fn undecodable_document_symbol_drops_its_subtree() {
    let bad = Json::Object(obj(vec![("name", s("Bad")), ("kind", n(12)), ("selectionRange", range(1, 1)), ("children", s("no"))]));
    let raw = Json::Array(vec![doc_symbol("A", 12, 0, None), bad]);
    assert_eq!(names(&flatten_symbols(&raw)), vec!["A"]);
}

#[test]
fn flat_symbols_use_location_range() {
    let info = |name: &str, uri: &str| {
        Json::Object(obj(vec![
            ("name", s(name)),
            ("kind", n(12)),
            ("location", Json::Object(obj(vec![("uri", s(uri)), ("range", range(4, 8))]))),
        ]))
    };
    let raw = Json::Array(vec![info("f", "file:///a.go"), info("g", "file:///b.go")]);
    let syms = flatten_symbols(&raw);
    assert_eq!(names(&syms), vec!["f", "g"]);
    assert_eq!((syms[0].start_line, syms[0].end_line), (4, 8));
}

#[test]
fn non_array_responses_have_no_symbols() {
    assert!(flatten_symbols(&Json::Null).is_empty());
    assert!(flatten_symbols(&Json::Array(vec![])).is_empty());
    assert!(flatten_symbols(&s("x")).is_empty());
}

#[test]
fn header_lines() {
    assert_eq!(header_line("Content-Length: 52\r\n"), HeaderLine::ContentLength(52));
    assert_eq!(header_line("Content-Length:  7 \r\n"), HeaderLine::ContentLength(7));
    assert_eq!(header_line("Content-Length: x\r\n"), HeaderLine::BadLength);
    assert_eq!(header_line("Content-Type: utf8\r\n"), HeaderLine::Other);
    assert_eq!(header_line("\r\n"), HeaderLine::End);
    assert_eq!(frame_header("{}"), "Content-Length: 2\r\n\r\n");
    assert_eq!(frame_header("é"), "Content-Length: 2\r\n\r\n");
}

#[test]
fn messages_are_built_in_field_order() {
    match request_message(7, "initialize", Json::Null) {
        Json::Object(m) => {
            let keys: Vec<&str> = m.iter().map(|x| x.key.as_str()).collect();
            assert_eq!(keys, vec!["jsonrpc", "id", "method", "params"]);
            assert!(json_eq(&m[1].value, &n(7)));
        }
        _ => panic!("not an object"),
    }
    match notification_message("exit", Json::Object(vec![])) {
        Json::Object(m) => assert_eq!(m.len(), 3),
        _ => panic!("not an object"),
    }
    match server_reply(s("tok")) {
        Json::Object(m) => {
            assert_eq!(m[2].key, "result");
            assert!(json_eq(&m[1].value, &s("tok")));
        }
        _ => panic!("not an object"),
    }
}

#[test]
fn response_wait_keeps_other_responses() {
    let r = response_step(2, MessageKind::Response { id: 1, result: n(10) });
    assert!(matches!(r, ResponseStep::Keep(1, _)));
    let r = response_step(2, MessageKind::Response { id: 2, result: n(20) });
    assert!(matches!(r, ResponseStep::Done(Json::Number(JsonNumber::PosInt(20)))));
    assert!(matches!(response_step(2, MessageKind::Other), ResponseStep::Skip));
}

fn begin(token: &str, title: &str) -> IndexingEvent {
    IndexingEvent::Message(MessageKind::ProgressBegin { token: s(token), title: title.to_string() })
}

fn end(token: &str) -> IndexingEvent {
    IndexingEvent::Message(MessageKind::ProgressEnd { token: s(token) })
}

#[test]
fn indexing_waits_for_setup_then_probes_for_load() {
    let st = IndexingState::AwaitSetup { setup_token: None };
    let st = indexing_step(st, begin("a", "Indexing")).state;
    let st = indexing_step(st, end("a")).state;
    assert!(matches!(st, IndexingState::AwaitSetup { setup_token: None }));
    let st = indexing_step(st, begin("s", "Setting up workspace")).state;
    let step = indexing_step(st, IndexingEvent::Message(MessageKind::Response { id: 9, result: Json::Null }));
    assert!(matches!(step.keep, Some((9, _))));
    let st = indexing_step(step.state, end("s")).state;
    assert!(matches!(st, IndexingState::ProbeLoad));
    let st = indexing_step(st, begin("l", "Loading packages")).state;
    assert!(!indexing_done(&st));
    let st = indexing_step(st, end("other")).state;
    assert!(matches!(st, IndexingState::AwaitLoad { .. }));
    let st = indexing_step(st, end("l")).state;
    assert!(indexing_done(&st));
}

#[test]
fn warm_cache_finishes_when_probe_expires() {
    let st = indexing_step(IndexingState::AwaitSetup { setup_token: None }, begin("t", "LOADING")).state;
    let st = indexing_step(st, end("t")).state;
    let st = indexing_step(st, IndexingEvent::ProbeExpired).state;
    assert!(indexing_done(&st));
}

#[test]
fn symbols_with_invalid_uris_are_dropped() {
    let info = Json::Object(obj(vec![
        ("name", s("f")),
        ("kind", n(12)),
        ("location", Json::Object(obj(vec![("uri", s("not a uri")), ("range", range(1, 2))]))),
    ]));
    assert!(flatten_symbols(&Json::Array(vec![info])).is_empty());
}

#[test]
fn file_uris_and_workspace_folder() {
    assert_eq!(pasua::semantic::path_to_uri("/tmp/repo/a.go"), Some("file:///tmp/repo/a.go".to_string()));
    assert_eq!(pasua::semantic::path_to_uri("/tmp/has space"), None);
    assert_eq!(
        pasua::semantic::workspace_folder("/tmp/repo"),
        Some(("file:///tmp/repo".to_string(), "repo".to_string()))
    );
    assert_eq!(pasua::semantic::workspace_folder("/"), Some(("file:///".to_string(), "workspace".to_string())));
}
