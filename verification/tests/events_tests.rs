use pixlab::events::{
    codex_body_preview, extract_codex_error_message, extract_generated_image_from_item,
    format_error_chain, parse_codex_sse_text, parse_codex_stream_response,
};
use pixlab::json::JsonValue;

fn convert(v: serde_json::Value) -> JsonValue {
    match v {
        serde_json::Value::Null => JsonValue::Null,
        serde_json::Value::Bool(b) => JsonValue::Bool(b),
        serde_json::Value::Number(n) => JsonValue::Number(n.as_i64()),
        serde_json::Value::String(s) => JsonValue::Str(s),
        serde_json::Value::Array(items) => JsonValue::Array(items.into_iter().map(convert).collect()),
        serde_json::Value::Object(map) => {
            JsonValue::Object(map.into_iter().map(|(k, v)| (k, convert(v))).collect())
        }
    }
}

fn json(text: &str) -> JsonValue {
    convert(serde_json::from_str(text).expect("test JSON"))
}

#[test]
fn error_message_prefers_error_then_response_error_then_message() {
    assert_eq!(
        extract_codex_error_message(&json(r#"{"error":"plain","message":"m"}"#)),
        Some("plain".to_string())
    );
    assert_eq!(
        extract_codex_error_message(&json(r#"{"error":{"code":"c","type":"t"}}"#)),
        Some("c".to_string())
    );
    assert_eq!(
        extract_codex_error_message(&json(r#"{"error":{"type":"t"}}"#)),
        Some("t".to_string())
    );
    assert_eq!(
        extract_codex_error_message(&json(r#"{"error":{},"response":{"error":{"message":"inner"}}}"#)),
        Some("inner".to_string())
    );
    assert_eq!(
        extract_codex_error_message(&json(r#"{"message":"top"}"#)),
        Some("top".to_string())
    );
    assert_eq!(extract_codex_error_message(&json(r#"{"type":"x"}"#)), None);
}

#[test]
fn image_items_need_the_right_type_and_data() {
    let img = extract_generated_image_from_item(&json(
        r#"{"type":"image_generation_call","result":"  QUJD  ","revised_prompt":"rp"}"#,
    ))
    .expect("image");
    assert_eq!(img.png_base64, "QUJD");
    assert_eq!(img.revised_prompt, Some("rp".to_string()));
    let partial = extract_generated_image_from_item(&json(
        r#"{"type":"image_generation_call","partial_image_b64":"UA=="}"#,
    ))
    .expect("image");
    assert_eq!(partial.png_base64, "UA==");
    assert_eq!(partial.revised_prompt, None);
    assert!(extract_generated_image_from_item(&json(r#"{"type":"message","result":"x"}"#)).is_none());
    assert!(extract_generated_image_from_item(&json(
        r#"{"type":"image_generation_call","result":"   "}"#
    ))
    .is_none());
}

#[test]
fn output_item_done_returns_its_image() {
    let body = "event: response.created\ndata: {\"type\":\"response.created\"}\n\ndata: {\"type\":\"response.output_item.done\",\"item\":{\"type\":\"image_generation_call\",\"result\":\" QUJD \",\"revised_prompt\":\"rp\"}}\n";
    let img = parse_codex_sse_text(body).expect("image");
    assert_eq!(img.png_base64, "QUJD");
    assert_eq!(img.revised_prompt.as_deref(), Some("rp"));
}

#[test]
fn completed_falls_back_to_the_partial_image_with_the_smallest_index() {
    let body = "data: {\"type\":\"response.image_generation_call.partial_image\",\"output_index\":1,\"partial_image_b64\":\"BBB\"}\ndata: {\"type\":\"response.image_generation_call.partial_image\",\"output_index\":0,\"partial_image_b64\":\"AAA\"}\ndata: {\"type\":\"response.image_generation_call.partial_image\",\"output_index\":0,\"partial_image_b64\":\"CCC\",\"revised_prompt\":\"p\"}\ndata: {\"type\":\"response.image_generation_call.partial_image\",\"output_index\":2,\"partial_image_b64\":\"  \"}\ndata: {\"type\":\"response.completed\",\"response\":{\"output\":[]}}\ndata: [DONE]\n";
    let img = parse_codex_sse_text(body).expect("image");
    assert_eq!(img.png_base64, "CCC");
    assert_eq!(img.revised_prompt.as_deref(), Some("p"));
}

#[test]
fn completed_prefers_images_in_its_outputs() {
    let body = "data: {\"type\":\"response.image_generation_call.partial_image\",\"partial_image_b64\":\"AAA\"}\ndata: {\"type\":\"response.completed\",\"response\":{\"output\":[{\"type\":\"reasoning\"},{\"type\":\"image_generation_call\",\"result\":\"FULL\"}]}}\n";
    assert_eq!(parse_codex_sse_text(body).expect("image").png_base64, "FULL");
}

#[test]
fn completed_with_an_error_fails() {
    let body = "data: {\"type\":\"response.completed\",\"response\":{\"error\":{\"message\":\"quota\"}}}\n";
    assert_eq!(
        parse_codex_sse_text(body).err(),
        Some("Codex failed to generate the spritesheet: quota".to_string())
    );
}

#[test]
fn failed_events_end_the_stream() {
    let body = "data: {\"type\":\"response.failed\",\"response\":{\"error\":{\"message\":\"boom\"}}}\ndata: {\"type\":\"response.output_item.done\",\"item\":{\"type\":\"image_generation_call\",\"result\":\"X\"}}\n";
    assert_eq!(
        parse_codex_sse_text(body).err(),
        Some("Codex failed to generate the spritesheet: boom".to_string())
    );
    assert_eq!(
        parse_codex_sse_text("data: {\"type\":\"error\"}").err(),
        Some("Codex failed to generate the spritesheet: unknown error".to_string())
    );
}

#[test]
fn a_payload_that_is_not_json_is_an_error() {
    let err = parse_codex_sse_text("data: {oops\n").err().expect("error");
    assert!(err.starts_with("Failed to parse Codex event stream: "), "{err}");
}

#[test]
fn repeated_data_prefixes_are_stripped() {
    let body = "data:data: {\"type\":\"response.output_item.done\",\"item\":{\"type\":\"image_generation_call\",\"result\":\"Z\"}}";
    assert_eq!(parse_codex_sse_text(body).expect("image").png_base64, "Z");
}

#[test]
fn a_stream_without_image_names_the_events_seen() {
    let body = "data: {\"type\":\"response.created\"}\ndata: {\"type\":\"response.in_progress\"}\ndata: {\"type\":\"response.created\"}\n";
    assert_eq!(
        parse_codex_sse_text(body).err(),
        Some("Codex did not return a spritesheet image (seen events: response.created, response.in_progress).".to_string())
    );
}

#[test]
fn a_body_without_events_is_described() {
    assert_eq!(
        parse_codex_sse_text("hello\nworld\n").err(),
        Some("Codex did not return a spritesheet image (hello | world).".to_string())
    );
    assert_eq!(
        parse_codex_sse_text("").err(),
        Some("Codex did not return a spritesheet image (empty response body).".to_string())
    );
}

#[test]
fn preview_reports_errors_events_and_snippets() {
    assert_eq!(
        codex_body_preview("data: {\"error\":{\"code\":\"rate_limited\"}}\n"),
        "Codex error event: rate_limited"
    );
    assert_eq!(
        codex_body_preview("data: {\"type\":\"a\"}\n{\"type\":\"b\"}\ndata: {\"type\":\"a\"}\n"),
        "seen events: a, b"
    );
    assert_eq!(
        codex_body_preview("data: [DONE]\n  \nnot json partial_image_b64\nplain text\n"),
        "plain text"
    );
    let long = "x".repeat(300);
    assert_eq!(codex_body_preview(&long), "x".repeat(180));
    assert_eq!(codex_body_preview(""), "empty response body");
}

#[test]
fn preview_reads_only_the_first_80_lines() {
    let mut body = String::new();
    for _ in 0..80 {
        body.push_str("\n");
    }
    body.push_str("late line\n");
    assert_eq!(codex_body_preview(&body), "empty response body");
}

#[test]
fn error_chain_skips_repeated_messages() {
    let messages = vec!["a".to_string(), "b".to_string(), "a".to_string(), "c".to_string()];
    assert_eq!(format_error_chain(&messages), "a: b: c");
    assert_eq!(format_error_chain(&vec!["only".to_string()]), "only");
}

#[test]
fn stream_response_outcomes() {
    assert_eq!(
        parse_codex_stream_response(500, "bad", None).err(),
        Some("Codex image generation failed with status 500: bad".to_string())
    );
    let ok = "data: {\"type\":\"response.output_item.done\",\"item\":{\"type\":\"image_generation_call\",\"result\":\"Q\"}}\n";
    assert_eq!(parse_codex_stream_response(200, ok, None).expect("image").png_base64, "Q");
    let chain = vec!["timed out".to_string(), "io".to_string(), "timed out".to_string()];
    assert_eq!(
        parse_codex_stream_response(200, "  ", Some(&chain)).err(),
        Some("Failed to read Codex response: timed out: io".to_string())
    );
    assert_eq!(parse_codex_stream_response(204, ok, Some(&chain)).expect("image").png_base64, "Q");
    assert_eq!(
        parse_codex_stream_response(200, "partial", Some(&chain)).err(),
        Some("Failed to read full Codex response: timed out: io; partial response parse failed: Codex did not return a spritesheet image (partial).; partial".to_string())
    );
}

#[test]
fn skipped_lines_inserted_anywhere_leave_the_image_unchanged() {
    let body = "data: {\"type\":\"response.image_generation_call.partial_image\",\"output_index\":3,\"partial_image_b64\":\"AAA\"}\ndata: {\"type\":\"response.completed\",\"response\":{\"output\":[]}}\n";
    let padded = ": keep-alive\nevent: response.created\ndata: {\"type\":\"response.image_generation_call.partial_image\",\"output_index\":3,\"partial_image_b64\":\"AAA\"}\n   data:   \ndata: [DONE]\nid: 7\ndata: {\"type\":\"response.completed\",\"response\":{\"output\":[]}}\ndata: [DONE]\n";
    let plain = parse_codex_sse_text(body).expect("image");
    let with_skips = parse_codex_sse_text(padded).expect("image");
    assert_eq!(plain.png_base64, "AAA");
    assert_eq!(with_skips.png_base64, plain.png_base64);
    assert_eq!(with_skips.revised_prompt, plain.revised_prompt);
}
