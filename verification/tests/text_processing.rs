use lsp_gpt::decimal::format_decimal;
use lsp_gpt::extract::extract_json;
use lsp_gpt::invocation::{diagnostic_durations, invocation_line, SKIPPED_LOG_LINES};
use lsp_gpt::gpt::GptResponseUsage;
use lsp_gpt::paragraphs::split_paragraphs;
use lsp_gpt::secrets::{lookup_secret, split_lines};

#[test]
fn extract_json_returns_input_without_fence() {
    assert_eq!(extract_json("{\"id\":1}"), "{\"id\":1}");
    assert_eq!(extract_json(""), "");
    assert_eq!(extract_json("```\n{}\n```"), "```\n{}\n```");
}

#[test]
fn extract_json_returns_fenced_block() {
    let raw = "Here is the answer:\n```json\n{\"jsonrpc\":\"2.0\",\"id\":3,\"result\":[]}\n```\nHope it helps.";
    assert_eq!(extract_json(raw), "{\"jsonrpc\":\"2.0\",\"id\":3,\"result\":[]}");
}

#[test]
fn extract_json_without_closing_fence_returns_rest() {
    assert_eq!(extract_json("x```json\n{\"a\":\"b\"}"), "{\"a\":\"b\"}");
}

#[test]
fn extract_json_takes_first_block_only() {
    let raw = "```json\n[1]\n```\n```json\n[2]\n```";
    assert_eq!(extract_json(raw), "[1]");
}

#[test]
fn extract_json_handles_non_ascii() {
    let raw = "Réponse é ```json\n{\"t\":\"ü→∑\"}\n```";
    assert_eq!(extract_json(raw), "{\"t\":\"ü→∑\"}");
}

#[test]
fn extract_json_empty_block() {
    assert_eq!(extract_json("```json\n\n```"), "");
}

#[test]
fn lookup_secret_finds_key() {
    let content = "OPENAI_ORG_ID=org-1\nOPENAI_API_KEY=sk-abc\n";
    assert_eq!(lookup_secret(content, "OPENAI_API_KEY"), Some("sk-abc".to_string()));
    assert_eq!(lookup_secret(content, "OPENAI_ORG_ID"), Some("org-1".to_string()));
}

#[test]
fn lookup_secret_missing_key() {
    assert_eq!(lookup_secret("A=1\nB=2", "C"), None);
    assert_eq!(lookup_secret("", "A"), None);
    assert_eq!(lookup_secret("no equals here\n", "no equals here"), None);
}

#[test]
fn lookup_secret_splits_at_first_equals_and_takes_first_line() {
    assert_eq!(lookup_secret("K=a=b\nK=c\n", "K"), Some("a=b".to_string()));
}

#[test]
fn lookup_secret_handles_crlf() {
    assert_eq!(lookup_secret("K=v\r\nL=w\r\n", "K"), Some("v".to_string()));
}

#[test]
fn lookup_secret_reads_back_rendered_file() {
    let pairs = [("ALPHA", "1"), ("BETA", "two words"), ("ALPHA", "shadowed"), ("EMPTY", "")];
    let mut content = String::new();
    for (k, v) in pairs.iter() {
        content.push_str(&format!("{}={}\n", k, v));
    }
    assert_eq!(lookup_secret(&content, "ALPHA"), Some("1".to_string()));
    assert_eq!(lookup_secret(&content, "BETA"), Some("two words".to_string()));
    assert_eq!(lookup_secret(&content, "EMPTY"), Some(String::new()));
}

#[test]
fn split_lines_matches_std_lines() {
    let samples = ["", "a", "a\n", "a\nb", "a\r\nb\r\n", "\n\n", "a\rb\n", "x\r", "\r\n", "é\nü\n\nz"];
    for s in samples.iter() {
        let expected: Vec<String> = s.lines().map(|l| l.to_string()).collect();
        assert_eq!(split_lines(s), expected, "input {:?}", s);
    }
}

#[test]
fn split_paragraphs_matches_std_split() {
    let samples = ["", "one", "one\n\ntwo", "one\n\n\ntwo", "a\n\n", "\n\n\n\n", "a\nb\n\nc"];
    for s in samples.iter() {
        let expected: Vec<String> = s.split("\n\n").map(|p| p.to_string()).collect();
        assert_eq!(split_paragraphs(s), expected, "input {:?}", s);
    }
}

#[test]
fn split_then_join_gives_back_text() {
    let text = "You are a language server.\n\nAnswer in JSON.\n\n\nBe brief.";
    assert_eq!(split_paragraphs(text).join("\n\n"), text);
}

#[test]
fn format_decimal_values() {
    assert_eq!(format_decimal(0), "0");
    assert_eq!(format_decimal(7), "7");
    assert_eq!(format_decimal(10), "10");
    assert_eq!(format_decimal(1234567890), "1234567890");
    assert_eq!(format_decimal(u128::MAX), u128::MAX.to_string());
}

#[test]
fn invocation_line_format() {
    let usage = GptResponseUsage { prompt_tokens: 120, completion_tokens: 30, total_tokens: 150 };
    let line = invocation_line(1700000000, "gpt-4o", 2345, "textDocument/completion", 4, &usage);
    assert_eq!(line, "1700000000,gpt-4o,2345,textDocument/completion,4,120,30,150\n");
}

#[test]
fn invocation_line_duration_is_third_field() {
    let usage = GptResponseUsage { prompt_tokens: 1, completion_tokens: 2, total_tokens: 3 };
    let line = invocation_line(5, "m", 987, "textDocument/diagnostic#textDocument/didSave", 0, &usage);
    assert_eq!(line.split(',').nth(2), Some("987"));
}

fn filler_log() -> String {
    let mut s = String::new();
    for i in 0..SKIPPED_LOG_LINES {
        s.push_str(&format!("{},m,1,textDocument/diagnostic,1,1,1,1\n", i));
    }
    s
}

#[test]
fn diagnostic_durations_skips_header_and_filters() {
    let mut log = filler_log();
    log.push_str("1,m,100,textDocument/diagnostic#textDocument/didSave,3,1,1,2\n");
    log.push_str("2,m,200,textDocument/completion,3,1,1,2\n");
    log.push_str("3,m,300,textDocument/diagnostic#textDocument/didSave,3,1,1,2\n");
    assert_eq!(diagnostic_durations(&log), Some(vec!["100".to_string(), "300".to_string()]));
}

#[test]
fn diagnostic_durations_short_log_is_empty() {
    assert_eq!(diagnostic_durations("1,m,100,textDocument/diagnostic,1,1,1,1\n"), Some(vec![]));
    assert_eq!(diagnostic_durations(""), Some(vec![]));
}

#[test]
fn diagnostic_durations_missing_field_is_none() {
    let mut log = filler_log();
    log.push_str("diagnostic,only-two\n");
    assert_eq!(diagnostic_durations(&log), None);
}
