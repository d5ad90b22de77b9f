use luai_orchestrator::llm::{build_request, join_content, status_error, strip_code_fences, LlmError, Message, MAX_TOKENS};

#[test]
fn strip_bare_code() {
    let input = "return 42";
    assert_eq!(strip_code_fences(input), "return 42");
}

#[test]
fn strip_lua_fence() {
    let input = "```lua\nreturn 42\n```";
    assert_eq!(strip_code_fences(input), "return 42");
}

#[test]
fn strip_plain_fence() {
    let input = "```\nreturn 42\n```";
    assert_eq!(strip_code_fences(input), "return 42");
}

#[test]
fn strip_with_whitespace() {
    let input = "  ```lua\n  local x = 1\n  return x\n  ```  ";
    assert_eq!(strip_code_fences(input), "local x = 1\n  return x");
}

#[test]
fn strip_unclosed_fence_keeps_trimmed_text() {
    assert_eq!(strip_code_fences("  ```lua\nreturn 1\n"), "```lua\nreturn 1");
}

#[test]
fn strip_empty_and_blank_input() {
    assert_eq!(strip_code_fences(""), "");
    assert_eq!(strip_code_fences(" \t\n\u{3000}"), "");
}

#[test]
fn strip_fence_only() {
    assert_eq!(strip_code_fences("``````"), "");
    assert_eq!(strip_code_fences("```"), "```");
    assert_eq!(strip_code_fences("```lua"), "```lua");
    assert_eq!(strip_code_fences("```lua```"), "");
}

#[test]
fn strip_other_language_fence_keeps_tag() {
    assert_eq!(strip_code_fences("```python\nprint(1)\n```"), "python\nprint(1)");
}

#[test]
fn strip_unicode_whitespace_inside_fence() {
    assert_eq!(strip_code_fences("```lua\u{a0}return \"é\"\u{2003}```"), "return \"é\"");
}

#[test]
fn strip_result_is_trimmed() {
    let out = strip_code_fences("```\n ``` x ``` \n```");
    assert_eq!(out, out.trim());
    assert_eq!(out, "``` x ```");
}

#[test]
fn llm_error_messages() {
    assert_eq!(LlmError::Http("timeout".to_string()).message(), "HTTP error: timeout");
    assert_eq!(LlmError::Api("bad".to_string()).message(), "API error: bad");
    assert_eq!(LlmError::NoContent.message(), "empty response from API");
}

#[test]
fn status_error_formats_status_and_body() {
    let e = status_error("404 Not Found", "{\"error\":1}");
    assert_eq!(e.message(), "API error: status 404 Not Found: {\"error\":1}");
}

#[test]
fn join_content_concatenates_blocks() {
    let blocks = vec!["return ".to_string(), "".to_string(), "42".to_string()];
    assert_eq!(join_content(&blocks).unwrap(), "return 42");
}

#[test]
fn join_content_without_text_is_no_content() {
    assert!(matches!(join_content(&vec![]), Err(LlmError::NoContent)));
    assert!(matches!(join_content(&vec![String::new(), String::new()]), Err(LlmError::NoContent)));
}

#[test]
fn build_request_copies_conversation() {
    let msgs = vec![Message::new("user", "task".to_string()), Message::new("assistant", "x".to_string())];
    let req = build_request("model-a", "system", &msgs);
    assert_eq!(req.model, "model-a");
    assert_eq!(req.max_tokens, MAX_TOKENS);
    assert_eq!(req.max_tokens, 4096);
    assert_eq!(req.system, "system");
    assert_eq!(req.messages.len(), 2);
    assert_eq!(req.messages[1].role, "assistant");
    assert_eq!(req.messages[1].content, "x");
}
