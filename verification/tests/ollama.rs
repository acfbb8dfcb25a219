use hush::ollama::{
    assistant_prefill_seed, finish_post_process, models_url, post_process_messages,
    qualifies_for_post_process, sort_model_ids, strip_qwen_thinking_leaks, ChatRole,
    POST_PROCESS_SYSTEM,
};

#[test]
fn qualifies_three_spaces_or_over_fifteen_chars() {
    assert!(!qualifies_for_post_process("a b c"));
    assert!(qualifies_for_post_process("a b c d"));
    assert!(qualifies_for_post_process("one two three four"));
    assert!(!qualifies_for_post_process("123456789012345"));
    assert!(qualifies_for_post_process("1234567890123456"));
    assert!(qualifies_for_post_process("a b cdefghijklmn"));
    assert!(qualifies_for_post_process("short words no third space yet"));
}

#[test]
fn strip_qwen_thinking_leaks_removes_tags() {
    assert_eq!(
        strip_qwen_thinking_leaks("</think>\n\nHello, is this thing on? Testing."),
        "Hello, is this thing on? Testing."
    );
}

#[test]
fn assistant_prefill_first_word_up_to_three_chars() {
    assert_eq!(
        assistant_prefill_seed("hello world foo bar"),
        Some("hel".to_string())
    );
    assert_eq!(assistant_prefill_seed("hi there x y z"), Some("hi".to_string()));
    assert_eq!(assistant_prefill_seed("a bc def ghi"), Some("a".to_string()));
}

#[test]
fn assistant_prefill_skips_leading_whitespace_and_blank() {
    assert_eq!(assistant_prefill_seed("   \tworld"), Some("wor".to_string()));
    assert_eq!(assistant_prefill_seed("   "), None);
    assert_eq!(assistant_prefill_seed(""), None);
}

#[test]
fn strip_removes_open_and_close_tags_inside() {
    assert_eq!(strip_qwen_thinking_leaks("  <think>a</think> b "), "a b");
}

#[test]
fn post_process_messages_with_prefill() {
    let m = post_process_messages("hello world foo");
    assert_eq!(m.len(), 3);
    assert_eq!(m[0].role, ChatRole::System);
    assert_eq!(m[0].content, POST_PROCESS_SYSTEM);
    assert_eq!(m[1].role, ChatRole::User);
    assert_eq!(m[1].content, "hello world foo");
    assert_eq!(m[2].role, ChatRole::Assistant);
    assert_eq!(m[2].content, "hel");
    assert_eq!(m[2].role.as_str(), "assistant");
}

#[test]
fn post_process_messages_without_word() {
    let m = post_process_messages("  ");
    assert_eq!(m.len(), 2);
    assert_eq!(m[1].content, "  ");
}

#[test]
fn finish_post_process_empty_is_error() {
    assert_eq!(
        finish_post_process("<think></think>  "),
        Err("post-process response was empty".to_string())
    );
    assert_eq!(finish_post_process(" done "), Ok("done".to_string()));
}

#[test]
fn sort_model_ids_orders_names() {
    let ids = vec![
        "qwen2.5:0.5b".to_string(),
        "llama3:8b".to_string(),
        "Mistral".to_string(),
        "llama3".to_string(),
        "é".to_string(),
    ];
    let mut expected = ids.clone();
    expected.sort();
    assert_eq!(sort_model_ids(ids), expected);
}

#[test]
fn models_url_joins_base_and_path() {
    assert_eq!(models_url(), "http://localhost:11434/v1/models");
}
