use shard_daemon::{validate_work_request, WorkRequest};

fn request(id: &str, prompt: &str, min_tokens: i32) -> WorkRequest {
    WorkRequest {
        request_id: id.to_string(),
        prompt_context: prompt.to_string(),
        min_tokens,
        created_at_ms: None,
    }
}

#[test]
fn boundary_values_are_accepted() {
    assert!(validate_work_request(&request("a", "p", 1)).is_ok());
    assert!(validate_work_request(&request("a", "p", 512)).is_ok());
    assert!(validate_work_request(&request(&"i".repeat(128), "p", 4)).is_ok());
    assert!(validate_work_request(&request("a", &"p".repeat(16_000), 4)).is_ok());
}

#[test]
fn blank_request_id_is_rejected() {
    let err = validate_work_request(&request("   \t", "p", 4)).unwrap_err();
    assert_eq!(err, "request_id must be non-empty and <= 128 chars");
}

#[test]
fn overlong_request_id_is_rejected() {
    let err = validate_work_request(&request(&"i".repeat(129), "p", 4)).unwrap_err();
    assert_eq!(err, "request_id must be non-empty and <= 128 chars");
}

#[test]
fn blank_prompt_is_rejected() {
    let err = validate_work_request(&request("a", " ", 4)).unwrap_err();
    assert_eq!(err, "prompt_context must be non-empty");
}

#[test]
fn overlong_prompt_is_rejected() {
    let err = validate_work_request(&request("a", &"p".repeat(16_001), 4)).unwrap_err();
    assert_eq!(err, "prompt_context exceeds 16000 chars");
}

#[test]
fn unicode_whitespace_only_fields_are_rejected() {
    // no-break space, vertical tab, em space, ideographic space
    for blank in ["\u{00A0}", "\u{000B}", "\u{2003}\u{2003}", "\u{3000}", "\u{0085}\u{202F}"] {
        let err = validate_work_request(&request(blank, "p", 4)).unwrap_err();
        assert_eq!(err, "request_id must be non-empty and <= 128 chars");
        let err = validate_work_request(&request("a", blank, 4)).unwrap_err();
        assert_eq!(err, "prompt_context must be non-empty");
    }
    // a visible character among the blanks is enough
    assert!(validate_work_request(&request("\u{00A0}x\u{00A0}", "p", 4)).is_ok());
}

#[test]
fn out_of_band_token_counts_are_rejected() {
    let err = validate_work_request(&request("a", "p", 0)).unwrap_err();
    assert_eq!(err, "min_tokens must be between 1 and 512");
    let err = validate_work_request(&request("a", "p", 513)).unwrap_err();
    assert_eq!(err, "min_tokens must be between 1 and 512");
    let err = validate_work_request(&request("a", "p", -3)).unwrap_err();
    assert_eq!(err, "min_tokens must be between 1 and 512");
}
