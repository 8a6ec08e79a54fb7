use pixlab::codex::{
    build_codex_headers, build_codex_request, build_spritesheet_prompt, check_external_url,
    codex_curl_args, codex_header_pairs, codex_responses_url, curl_failure_message,
    curl_request_args, prepare_codex_request, sanitize_reference_image_data_url,
    validate_generate_prompt, PROMPT_REFERENCE_REQUIREMENTS, PROMPT_SHEET_CLOSING, PROMPT_SHEET_OPENING, PROMPT_SHEET_RULES,
};
use pixlab::json::JsonValue;
use pixlab::token::CodexTokenStorage;

fn token(access: &str, account: &str) -> CodexTokenStorage {
    CodexTokenStorage {
        id_token: String::new(),
        access_token: access.to_string(),
        refresh_token: String::new(),
        account_id: account.to_string(),
        last_refresh: String::new(),
        email: String::new(),
        token_type: "codex".to_string(),
        expired: String::new(),
    }
}

fn s(v: &str) -> JsonValue {
    JsonValue::Str(v.to_string())
}

#[test]
fn prompt_includes_reference_requirements_only_with_a_reference() {
    let plain = build_spritesheet_prompt("a knight walking", false);
    assert_eq!(
        plain,
        format!(
            "Create a clean 2D pixel-art animation spritesheet for this request: a knight walking\n\nRequirements:{}{}{}",
            PROMPT_SHEET_OPENING, PROMPT_SHEET_RULES, PROMPT_SHEET_CLOSING
        )
    );
    assert!(plain.ends_with("- style should be game-ready pixel art"));
    let with_ref = build_spritesheet_prompt("x", true);
    assert_eq!(
        with_ref,
        format!(
            "Create a clean 2D pixel-art animation spritesheet for this request: x\n\nRequirements:{}{}{}{}",
            PROMPT_REFERENCE_REQUIREMENTS, PROMPT_SHEET_OPENING, PROMPT_SHEET_RULES, PROMPT_SHEET_CLOSING
        )
    );
    assert!(with_ref.contains("\n- use the provided input image only as the character design reference\n"));
}

fn member<'a>(v: &'a JsonValue, key: &str) -> &'a JsonValue {
    v.get(key).unwrap_or_else(|| panic!("missing {key}"))
}

#[test]
fn request_body_has_the_expected_shape() {
    let body = build_codex_request("hero", Some("data:image/png;base64,AAAA"));
    assert!(matches!(member(&body, "model"), JsonValue::Str(m) if m == "gpt-5.4"));
    assert!(matches!(member(&body, "stream"), JsonValue::Bool(true)));
    assert!(matches!(member(&body, "store"), JsonValue::Bool(false)));
    assert!(matches!(member(&body, "parallel_tool_calls"), JsonValue::Bool(true)));
    assert!(matches!(member(&body, "instructions"), JsonValue::Str(m) if m.is_empty()));
    let input = member(&body, "input").as_array().expect("input");
    assert_eq!(input.len(), 1);
    assert!(matches!(member(&input[0], "role"), JsonValue::Str(m) if m == "user"));
    let content = member(&input[0], "content").as_array().expect("content");
    assert_eq!(content.len(), 2);
    assert!(matches!(member(&content[0], "type"), JsonValue::Str(m) if m == "input_text"));
    assert!(matches!(member(&content[0], "text"), JsonValue::Str(m) if *m == build_spritesheet_prompt("hero", true)));
    assert!(matches!(member(&content[1], "image_url"), JsonValue::Str(m) if m == "data:image/png;base64,AAAA"));
    let tools = member(&body, "tools").as_array().expect("tools");
    assert!(matches!(member(&tools[0], "partial_images"), JsonValue::Number(Some(2))));
    assert!(matches!(member(&tools[0], "type"), JsonValue::Str(m) if m == "image_generation"));
    let inc = member(&body, "include").as_array().expect("include");
    assert!(matches!(&inc[0], JsonValue::Str(m) if m == "reasoning.encrypted_content"));

    let plain = build_codex_request("hero", None);
    let input = member(&plain, "input").as_array().expect("input");
    assert_eq!(member(&input[0], "content").as_array().expect("content").len(), 1);
    let _ = s("");
}

#[test]
fn reference_images_are_checked() {
    let ok = "  data:IMAGE/PNG;base64,iVBOR  ".to_string();
    assert_eq!(
        sanitize_reference_image_data_url(Some(&ok)),
        Ok(Some("data:IMAGE/PNG;base64,iVBOR".to_string()))
    );
    assert_eq!(sanitize_reference_image_data_url(None), Ok(None));
    assert_eq!(sanitize_reference_image_data_url(Some(&" \n ".to_string())), Ok(None));
    assert_eq!(
        sanitize_reference_image_data_url(Some(&"data:image/png;base64".to_string())),
        Err("Reference image must be a base64 image data URL.".to_string())
    );
    assert_eq!(
        sanitize_reference_image_data_url(Some(&"data:image/bmp;base64,xx".to_string())),
        Err("Reference image must be a PNG, JPG, WEBP, or GIF data URL.".to_string())
    );
    assert_eq!(
        sanitize_reference_image_data_url(Some(&"data:image/png,xx".to_string())),
        Err("Reference image must be a PNG, JPG, WEBP, or GIF data URL.".to_string())
    );
    assert_eq!(
        sanitize_reference_image_data_url(Some(&"data:image/webp;charset=x;base64,A,B".to_string())),
        Ok(Some("data:image/webp;charset=x;base64,A,B".to_string()))
    );
    let mut big = "data:image/gif;base64,".to_string();
    big.push_str(&"A".repeat(24 * 1024 * 1024));
    assert_eq!(
        sanitize_reference_image_data_url(Some(&big)),
        Err("Reference image is too large.".to_string())
    );
}

#[test]
fn a_checked_reference_passes_again_unchanged() {
    let raw = "\t data:image/jpeg;base64,/9j/ \n".to_string();
    let once = sanitize_reference_image_data_url(Some(&raw)).expect("ok").expect("some");
    let twice = sanitize_reference_image_data_url(Some(&once)).expect("ok").expect("some");
    assert_eq!(once, twice);
}

#[test]
fn prepared_request_checks_the_reference_first() {
    assert_eq!(
        prepare_codex_request("x", Some(&"nope".to_string())).err(),
        Some("Reference image must be a base64 image data URL.".to_string())
    );
    let body = prepare_codex_request("x", Some(&" data:image/png;base64,QQ ".to_string())).expect("body");
    let input = member(&body, "input").as_array().expect("input");
    let content = member(&input[0], "content").as_array().expect("content");
    assert!(matches!(member(&content[1], "image_url"), JsonValue::Str(m) if m == "data:image/png;base64,QQ"));
}

#[test]
fn headers_in_order() {
    let pairs = codex_header_pairs(&token("tok", "acct"), true, "00ff").expect("headers");
    let expected: Vec<(String, String)> = [
        ("content-type", "application/json"),
        ("authorization", "Bearer tok"),
        ("version", "0.101.0"),
        ("session_id", "00ff"),
        ("user-agent", "codex_cli_rs/0.101.0 (Mac OS 26.0.1; arm64) Apple_Terminal/464"),
        ("accept", "text/event-stream"),
        ("accept-encoding", "identity"),
        ("connection", "Keep-Alive"),
        ("originator", "codex_cli_rs"),
        ("chatgpt-account-id", "acct"),
    ]
    .iter()
    .map(|(k, v)| (k.to_string(), v.to_string()))
    .collect();
    assert_eq!(pairs, expected);
    let pairs = codex_header_pairs(&token("tok", "  "), false, "00ff").expect("headers");
    assert_eq!(pairs.len(), 9);
    assert_eq!(pairs[5], ("accept".to_string(), "application/json".to_string()));
}

#[test]
fn invalid_header_values_are_reported() {
    assert_eq!(
        codex_header_pairs(&token("bad\ntoken", "a"), true, "00").err(),
        Some("Invalid authorization header: failed to parse header value".to_string())
    );
    assert_eq!(
        codex_header_pairs(&token("tok", "a\u{7f}"), true, "00").err(),
        Some("Invalid Chatgpt-Account-Id header: failed to parse header value".to_string())
    );
    assert_eq!(
        codex_header_pairs(&token("tok", "a"), true, "0\u{1}").err(),
        Some("Invalid session header: failed to parse header value".to_string())
    );
    assert!(codex_header_pairs(&token("tok\tmore é", "a"), true, "00").is_ok());
}

#[test]
fn random_session_headers() {
    let pairs = build_codex_headers(&token("tok", ""), true).expect("headers");
    assert_eq!(pairs[3].0, "session_id");
    assert_eq!(pairs[3].1.len(), 32);
}

#[test]
fn curl_arguments() {
    let args = curl_request_args(&token("tok", "acct"), "abcd");
    let expected = vec![
        "--http1.1", "-sS", "--fail-with-body", "https://chatgpt.com/backend-api/codex/responses",
        "-H", "content-type: application/json",
        "-H", "authorization: Bearer tok",
        "-H", "version: 0.101.0",
        "-H", "session_id: abcd",
        "-H", "user-agent: codex_cli_rs/0.101.0 (Mac OS 26.0.1; arm64) Apple_Terminal/464",
        "-H", "accept: text/event-stream",
        "-H", "accept-encoding: identity",
        "-H", "connection: Keep-Alive",
        "-H", "originator: codex_cli_rs",
        "-H", "chatgpt-account-id: acct",
        "--data-binary", "@-",
    ];
    assert_eq!(args, expected);
    assert_eq!(codex_curl_args(&token("t", "")).len(), 26);
    assert_eq!(codex_responses_url(), "https://chatgpt.com/backend-api/codex/responses");
}

#[test]
fn curl_failure_messages() {
    assert_eq!(
        curl_failure_message(Some(22), " err \n", "\n{\"x\":1} "),
        "curl Codex request failed (status Some(22)): err {\"x\":1}"
    );
    assert_eq!(curl_failure_message(Some(-9), "", ""), "curl Codex request failed (status Some(-9)):  ");
    assert_eq!(curl_failure_message(None, "killed", ""), "curl Codex request failed (status None): killed ");
}

#[test]
fn blank_prompts_and_urls_are_refused() {
    assert_eq!(validate_generate_prompt("  "), Err("Prompt is required.".to_string()));
    assert_eq!(validate_generate_prompt(" a "), Ok(()));
    assert_eq!(check_external_url("\t"), Err("Missing URL to open.".to_string()));
    assert_eq!(check_external_url("https://x"), Ok(()));
}

#[test]
fn prompt_without_reference_is_heading_then_fixed_requirements() {
    let heading = |p: &str| {
        format!("Create a clean 2D pixel-art animation spritesheet for this request: {}\n\nRequirements:", p)
    };
    let a = build_spritesheet_prompt("a knight walking", false);
    let b = build_spritesheet_prompt("slime, idle and jump", false);
    assert!(a.starts_with(&heading("a knight walking")));
    assert!(b.starts_with(&heading("slime, idle and jump")));
    let rest_a = &a[heading("a knight walking").len()..];
    let rest_b = &b[heading("slime, idle and jump").len()..];
    assert_eq!(rest_a, rest_b);
    assert!(rest_a.starts_with("\n- output exactly one spritesheet image"));
    assert!(a.ends_with("- style should be game-ready pixel art"));
    assert!(!rest_a.contains("reference"));
}
