use std::str::FromStr;

use lsp_gpt::document::{file_path_of, workspace_document, DocumentCache, TextDocument};
use lsp_gpt::gpt::{create_messages, create_request, reply_text, GptMessage, GptResponse, GptResponseChoice, GptResponseUsage};
use lsp_gpt::json::document_json;
use lsp_gpt::prompt_config::{PromptConfig, PromptConfigEntry, PromptConfigFile};
use lsp_gpt::server::{
    authorization_value, create_headers, create_path, notification_kind, request_query, save_query,
    NotificationKind, ServerEvent,
};

fn doc(uri: &str, version: i32, text: &str) -> TextDocument {
    TextDocument { uri: uri.to_string(), language_id: "plantuml".to_string(), version, text: text.to_string() }
}

fn entry(method: &str, model: &str) -> PromptConfigEntry {
    PromptConfigEntry {
        method: method.to_string(),
        model: model.to_string(),
        model_temperature_bits: 0.5f32.to_bits(),
        file: format!("{}.txt", model),
        prompt_messages: vec![],
    }
}

fn serde_document(d: &TextDocument) -> String {
    let item = lsp_types::TextDocumentItem {
        uri: lsp_types::Uri::from_str(&d.uri).unwrap(),
        language_id: d.language_id.clone(),
        version: d.version,
        text: d.text.clone(),
    };
    serde_json::to_string(&item).unwrap()
}

#[test]
fn document_json_matches_serde() {
    let samples = [
        doc("file:///tmp/a.puml", 1, "@startuml\nA -> B : \"hi\"\n@enduml\n"),
        doc("file:///tmp/b.puml", -42, "tab\there\\ back\u{1}\u{1f}\u{7f} é ∑ \r\u{8}\u{c}"),
        doc("file:///x", i32::MIN, ""),
    ];
    for d in samples.iter() {
        assert_eq!(document_json(d), serde_document(d));
    }
}

#[test]
fn create_messages_with_workspace_documents() {
    let mut e = entry("textDocument/completion", "gpt-4");
    e.set_prompt_text("You complete PlantUML.\n\nAnswer with JSON.");
    let docs = vec![doc("file:///w/a.puml", 1, "A"), doc("file:///w/b.puml", 1, "B")];
    let latest = Some(doc("file:///other.puml", 3, "C"));
    let msgs = create_messages("{\"method\":\"x\"}".to_string(), &e, &docs, &latest);
    let view: Vec<(String, String)> = msgs.iter().map(|m| (m.role.clone(), m.content.clone())).collect();
    assert_eq!(
        view,
        vec![
            ("system".to_string(), "You complete PlantUML.".to_string()),
            ("system".to_string(), "Answer with JSON.".to_string()),
            ("system".to_string(), serde_document(&docs[0])),
            ("system".to_string(), serde_document(&docs[1])),
            ("user".to_string(), "{\"method\":\"x\"}".to_string()),
        ]
    );
}

#[test]
fn create_messages_falls_back_to_latest_document() {
    let e = entry("fallback", "gpt-4");
    let latest = Some(doc("file:///other.puml", 3, "C"));
    let msgs = create_messages("req".to_string(), &e, &vec![], &latest);
    assert_eq!(msgs.len(), 2);
    assert_eq!(msgs[0].role, "system");
    assert_eq!(msgs[0].content, serde_document(latest.as_ref().unwrap()));
    assert_eq!(msgs[1].role, "user");
    assert_eq!(msgs[1].content, "req");
    let none = create_messages("req".to_string(), &e, &vec![], &None);
    assert_eq!(none.len(), 1);
}

#[test]
fn create_request_uses_entry() {
    let e = entry("m", "gpt-4o");
    let msgs = vec![GptMessage { role: "user".to_string(), content: "x".to_string() }];
    let r = create_request(&e, msgs);
    assert_eq!(r.model, "gpt-4o");
    assert_eq!(r.n, 1);
    assert_eq!(f32::from_bits(r.temperature_bits), 0.5);
    assert_eq!(r.messages.len(), 1);
}

fn response(contents: &[&str]) -> GptResponse {
    GptResponse {
        id: "id".to_string(),
        choices: contents
            .iter()
            .enumerate()
            .map(|(i, c)| GptResponseChoice {
                index: i as u64,
                message: GptMessage { role: "assistant".to_string(), content: c.to_string() },
                finish_reason: "stop".to_string(),
            })
            .collect(),
        usage: GptResponseUsage { prompt_tokens: 1, completion_tokens: 1, total_tokens: 2 },
    }
}

#[test]
fn reply_text_takes_first_choice() {
    let r = response(&["```json\n{\"id\":1}\n```", "other"]);
    assert_eq!(reply_text(&r), Some("{\"id\":1}"));
    let plain = response(&["{\"id\":2}"]);
    assert_eq!(reply_text(&plain), Some("{\"id\":2}"));
}

#[test]
fn reply_text_without_choice_is_none() {
    assert_eq!(reply_text(&response(&[])), None);
}

#[test]
fn prompt_config_get_or_default() {
    let file = PromptConfigFile {
        prompts: vec![entry("fallback", "fb"), entry("textDocument/completion", "c1"), entry("textDocument/completion", "c2")],
    };
    assert!(file.has_fallback());
    assert_eq!(file.get("textDocument/completion").unwrap().model, "c1");
    assert!(file.get("textDocument/hover").is_none());
    assert_eq!(file.get_or_default("textDocument/hover").model, "fb");
    assert_eq!(file.get_or_default("textDocument/completion").model, "c1");
}

#[test]
fn prompt_config_requires_fallback() {
    let without = PromptConfigFile { prompts: vec![entry("textDocument/completion", "c")] };
    assert!(!without.has_fallback());
    assert!(PromptConfig::from_parts("/p/".to_string(), without).is_none());
    let with = PromptConfigFile { prompts: vec![entry("fallback", "fb")] };
    let mut config = PromptConfig::from_parts("/p/".to_string(), with).unwrap();
    assert_eq!(config.folder(), "/p/");
    assert_eq!(config.get_or_default("anything").model, "fb");
    let bad = PromptConfigFile { prompts: vec![entry("x", "y")] };
    assert!(!config.reload(bad));
    assert_eq!(config.get_or_default("x").model, "fb");
    let good = PromptConfigFile { prompts: vec![entry("fallback", "fb2"), entry("x", "y")] };
    assert!(config.reload(good));
    assert_eq!(config.get_or_default("x").model, "y");
    assert!(config.get("z").is_none());
}

#[test]
fn set_prompt_text_splits_paragraphs() {
    let mut e = entry("m", "x");
    e.set_prompt_text("a\n\nb\n\n");
    assert_eq!(e.prompt_messages, vec!["a".to_string(), "b".to_string(), String::new()]);
    assert_eq!(e.method, "m");
}

#[test]
fn document_cache_open_and_update() {
    let mut cache = DocumentCache::new();
    assert!(cache.latest.is_none());
    cache.update_latest_document("file:///a.puml", "new".to_string());
    assert!(cache.latest.is_none());
    cache.open(doc("file:///a.puml", 1, "old"));
    assert!(cache.is_latest("file:///a.puml"));
    cache.update_latest_document("file:///b.puml", "other".to_string());
    assert_eq!(cache.latest.as_ref().unwrap().text, "old");
    cache.update_latest_document("file:///a.puml", "new".to_string());
    let d = cache.latest.as_ref().unwrap();
    assert_eq!(d.text, "new");
    assert_eq!(d.version, 1);
    assert_eq!(d.uri, "file:///a.puml");
}

#[test]
fn handle_event_cases() {
    let mut cache = DocumentCache::new();
    let step = cache.handle_event(ServerEvent::Request {
        method: "textDocument/completion".to_string(),
        raw_message: "{}".to_string(),
    });
    let q = step.query.unwrap();
    assert_eq!(q.prompt_method, "textDocument/completion");
    assert_eq!(q.log_method, "textDocument/completion");
    assert_eq!(q.user_message, "{}");
    assert!(!q.as_notification);
    assert!(step.reload_url.is_none());

    let step = cache.handle_event(ServerEvent::Opened(Some(doc("file:///a.puml", 1, "x"))));
    assert!(step.query.is_none() && step.reload_url.is_none());
    assert_eq!(cache.latest.as_ref().unwrap().uri, "file:///a.puml");

    let step = cache.handle_event(ServerEvent::Changed(Some("file:///a.puml".to_string())));
    assert_eq!(step.reload_url.as_deref(), Some("file:///a.puml"));
    assert!(step.query.is_none());
    let step = cache.handle_event(ServerEvent::Changed(Some("file:///b.puml".to_string())));
    assert!(step.reload_url.is_none());

    let step = cache.handle_event(ServerEvent::Saved(Some("file:///a.puml".to_string())));
    assert_eq!(step.reload_url.as_deref(), Some("file:///a.puml"));
    let q = step.query.unwrap();
    assert!(q.as_notification);
    assert_eq!(q.prompt_method, "textDocument/didSave");
    assert_eq!(q.log_method, "textDocument/diagnostic#textDocument/didSave");
    assert_eq!(
        q.user_message,
        "{\"method\":\"textDocument/diagnostic\",\"params\":{\"textDocument\":{\"uri\":\"file:///a.puml\"}, \"response_type\":\"notification\"}}"
    );

    for ev in [ServerEvent::Opened(None), ServerEvent::Changed(None), ServerEvent::Saved(None), ServerEvent::OtherNotification, ServerEvent::Response] {
        let step = cache.handle_event(ev);
        assert!(step.query.is_none() && step.reload_url.is_none());
    }
    assert_eq!(cache.latest.as_ref().unwrap().uri, "file:///a.puml");
}

#[test]
fn notification_kinds() {
    assert_eq!(notification_kind("textDocument/didOpen"), NotificationKind::DidOpen);
    assert_eq!(notification_kind("textDocument/didChange"), NotificationKind::DidChange);
    assert_eq!(notification_kind("textDocument/didSave"), NotificationKind::DidSave);
    assert_eq!(notification_kind("textDocument/didClose"), NotificationKind::Other);
    assert_eq!(notification_kind(""), NotificationKind::Other);
}

#[test]
fn queries() {
    let q = request_query("textDocument/hover", "raw".to_string());
    assert_eq!(q.prompt_method, "textDocument/hover");
    let s = save_query("textDocument/didSave", "file:///x.puml");
    assert_eq!(s.log_method, "textDocument/diagnostic#textDocument/didSave");
}

#[test]
fn paths_and_headers() {
    assert_eq!(create_path("/secrets.txt"), "/home/marco/dev/projects/lsp-gpt/secrets.txt");
    assert_eq!(file_path_of("file:///home/u/a.puml"), "/home/u/a.puml");
    assert_eq!(file_path_of("/home/u/a.puml"), "/home/u/a.puml");
    assert_eq!(file_path_of("file:/"), "file:/");
    let auth = authorization_value("sk-1");
    assert_eq!(auth, "Bearer sk-1");
    let h = create_headers(&auth, "org-9");
    assert_eq!(
        h,
        vec![
            ("content-type".to_string(), "application/json".to_string()),
            ("authorization".to_string(), "Bearer sk-1".to_string()),
            ("OpenAI-Organization".to_string(), "org-9".to_string()),
        ]
    );
}

#[test]
fn workspace_document_uris() {
    let d = workspace_document("plantuml", Some("/w/a.puml"), 0, 3, "A".to_string());
    assert_eq!(d.uri, "file:///w/a.puml");
    assert_eq!(d.version, 1);
    assert_eq!(d.language_id, "plantuml");
    assert_eq!(d.text, "A");
    let p = workspace_document("plantuml", None, 2, 15, String::new());
    assert_eq!(p.uri, "file://2-15.puml");
}

#[test]
fn workspace_document_uri_leads_back_to_file() {
    let d = workspace_document("plantuml", Some("/home/u/diagrams/seq.puml"), 1, 0, String::new());
    assert_eq!(file_path_of(&d.uri), "/home/u/diagrams/seq.puml");
}
