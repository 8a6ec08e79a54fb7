use pixlab::events::CodexGeneratedImage;
use pixlab::generate::{
    decode_generated_png, generate_action, generate_result, generate_start, generate_step,
    new_spritesheet_file_name, spritesheet_file_name, GenerateAction, GenerateEvent,
    GenerateStage, GenerateStep,
};

fn img(data: &str) -> CodexGeneratedImage {
    CodexGeneratedImage { png_base64: data.to_string(), revised_prompt: Some("r".to_string()) }
}

fn next(step: GenerateStep) -> GenerateStage {
    match step {
        GenerateStep::Next(s) => s,
        GenerateStep::Finish(_) => panic!("finished early"),
    }
}

fn finish(step: GenerateStep) -> Result<CodexGeneratedImage, String> {
    match step {
        GenerateStep::Finish(r) => r,
        GenerateStep::Next(_) => panic!("not finished"),
    }
}

#[test]
fn curl_success_ends_at_once() {
    let s = generate_start();
    assert!(matches!(generate_action(&s), GenerateAction::RunCurl));
    let r = finish(generate_step(s, GenerateEvent::CurlDone(Ok(img("A")))));
    assert_eq!(r.expect("image").png_base64, "A");
}

#[test]
fn fallback_errors_name_the_curl_error() {
    let s = next(generate_step(generate_start(), GenerateEvent::CurlDone(Err("curl broke".to_string()))));
    assert!(matches!(generate_action(&s), GenerateAction::SendHttp));
    let r = finish(generate_step(s, GenerateEvent::SendFailed("dns".to_string())));
    assert_eq!(r.err(), Some("Codex request failed after curl fallback error (curl broke): dns".to_string()));

    let s = next(generate_step(generate_start(), GenerateEvent::CurlDone(Err("c".to_string()))));
    let s = next(generate_step(s, GenerateEvent::Responded(500)));
    assert!(matches!(generate_action(&s), GenerateAction::ParseResponse));
    let r = finish(generate_step(s, GenerateEvent::Parsed(Err("bad status".to_string()))));
    assert_eq!(r.err(), Some("bad status; curl fallback also failed: c".to_string()));

    let s = next(generate_step(generate_start(), GenerateEvent::CurlDone(Err("c".to_string()))));
    let r = finish(generate_step(s, GenerateEvent::HeadersFailed("Invalid authorization header: x".to_string())));
    assert_eq!(r.err(), Some("Invalid authorization header: x".to_string()));
}

#[test]
fn unauthorized_refreshes_once_and_retries() {
    let s = next(generate_step(generate_start(), GenerateEvent::CurlDone(Err("c1".to_string()))));
    let s = next(generate_step(s, GenerateEvent::Responded(401)));
    assert!(matches!(generate_action(&s), GenerateAction::Refresh));
    let s = next(generate_step(s, GenerateEvent::Refreshed(Ok(()))));
    assert!(matches!(generate_action(&s), GenerateAction::RunCurl));
    let s = next(generate_step(s, GenerateEvent::CurlDone(Err("c2".to_string()))));
    let s = next(generate_step(s, GenerateEvent::Responded(401)));
    assert!(matches!(generate_action(&s), GenerateAction::ParseResponse));
    let r = finish(generate_step(s, GenerateEvent::Parsed(Err("status 401".to_string()))));
    assert_eq!(r.err(), Some("status 401; curl retry also failed: c2".to_string()));

    let s = next(generate_step(generate_start(), GenerateEvent::CurlDone(Err("c1".to_string()))));
    let s = next(generate_step(s, GenerateEvent::Responded(401)));
    let r = finish(generate_step(s, GenerateEvent::Refreshed(Err("Codex refresh token is missing.".to_string()))));
    assert_eq!(r.err(), Some("Codex refresh token is missing.".to_string()));

    let s = next(generate_step(generate_start(), GenerateEvent::CurlDone(Err("c1".to_string()))));
    let s = next(generate_step(s, GenerateEvent::Responded(401)));
    let s = next(generate_step(s, GenerateEvent::Refreshed(Ok(()))));
    let s = next(generate_step(s, GenerateEvent::CurlDone(Err("c2".to_string()))));
    let r = finish(generate_step(s, GenerateEvent::SendFailed("reset".to_string())));
    assert_eq!(r.err(), Some("Codex retry failed after curl fallback error (c2): reset".to_string()));
}

#[test]
fn the_retry_can_succeed() {
    let s = next(generate_step(generate_start(), GenerateEvent::CurlDone(Err("c1".to_string()))));
    let s = next(generate_step(s, GenerateEvent::Responded(401)));
    let s = next(generate_step(s, GenerateEvent::Refreshed(Ok(()))));
    let r = finish(generate_step(s, GenerateEvent::CurlDone(Ok(img("B")))));
    assert_eq!(r.expect("image").png_base64, "B");
}

#[test]
fn saved_spritesheet_details() {
    assert_eq!(spritesheet_file_name(1234), "codex-spritesheet-1234.png");
    assert_eq!(spritesheet_file_name(-5), "codex-spritesheet--5.png");
    assert_eq!(spritesheet_file_name(0), "codex-spritesheet-0.png");
    let name = new_spritesheet_file_name();
    assert!(name.starts_with("codex-spritesheet-") && name.ends_with(".png"));
    let r = generate_result("/tmp/a.png".to_string(), "a.png".to_string(), &img("QUJD"));
    assert_eq!(r.image_path, "/tmp/a.png");
    assert_eq!(r.file_name, "a.png");
    assert_eq!(r.image_data_url, "data:image/png;base64,QUJD");
    assert_eq!(r.revised_prompt.as_deref(), Some("r"));
}

#[test]
fn generated_images_are_decoded_from_padded_base64() {
    assert_eq!(decode_generated_png(&img("QUJD")), Ok(b"ABC".to_vec()));
    assert_eq!(decode_generated_png(&img("QQ==")), Ok(b"A".to_vec()));
    let err = decode_generated_png(&img("QQ")).err().expect("error");
    assert!(err.starts_with("Failed to decode generated spritesheet: "), "{err}");
}
