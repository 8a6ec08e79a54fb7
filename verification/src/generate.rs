//! The course of a spritesheet generation: `curl` first, the HTTP client as
//! fallback, one token refresh on an unauthorized answer, and what is kept of
//! the image.
use vstd::prelude::*;
use crate::events::{CodexGeneratedImage, ImageView, image_result, copy_opt_string, opt_view};
use crate::text::{push_str_chars, string_of, int_decimal, push_int};

verus! {

/// Where a generation stands. The stages after a failed `curl` attempt keep
/// its error message.
pub enum GenerateStage {
    CurlFirst,
    HttpFirst(String),
    ParseFirst(String),
    Refreshing,
    CurlRetry,
    HttpRetry(String),
    ParseRetry(String),
}

/// What the app reports back after doing the work a stage asks for.
pub enum GenerateEvent {
    /// The `curl` request ended with an image or an error.
    CurlDone(Result<CodexGeneratedImage, String>),
    /// The headers of the HTTP request could not be built.
    HeadersFailed(String),
    /// The HTTP request could not be sent.
    SendFailed(String),
    /// The HTTP request was answered with this status.
    Responded(u16),
    /// The tokens were refreshed and saved, or the error of that.
    Refreshed(Result<(), String>),
    /// The HTTP response was read into an image or an error.
    Parsed(Result<CodexGeneratedImage, String>),
}

/// The work the app does for a stage.
pub enum GenerateAction {
    RunCurl,
    SendHttp,
    Refresh,
    ParseResponse,
}

/// The next stage, or the end of the generation with its result.
pub enum GenerateStep {
    Next(GenerateStage),
    Finish(Result<CodexGeneratedImage, String>),
}

/// The model of a [`GenerateStage`].
pub enum StageView {
    CurlFirst,
    HttpFirst(Seq<char>),
    ParseFirst(Seq<char>),
    Refreshing,
    CurlRetry,
    HttpRetry(Seq<char>),
    ParseRetry(Seq<char>),
}

/// The model of a [`GenerateEvent`].
pub enum EventView {
    CurlDone(Result<ImageView, Seq<char>>),
    HeadersFailed(Seq<char>),
    SendFailed(Seq<char>),
    Responded(u16),
    Refreshed(Result<(), Seq<char>>),
    Parsed(Result<ImageView, Seq<char>>),
}

/// The model of a [`GenerateStep`].
pub enum StepView {
    Next(StageView),
    Finish(Result<ImageView, Seq<char>>),
}

impl View for GenerateStage {
    type V = StageView;

    open spec fn view(&self) -> StageView {
        match self {
            GenerateStage::CurlFirst => StageView::CurlFirst,
            GenerateStage::HttpFirst(e) => StageView::HttpFirst(e@),
            GenerateStage::ParseFirst(e) => StageView::ParseFirst(e@),
            GenerateStage::Refreshing => StageView::Refreshing,
            GenerateStage::CurlRetry => StageView::CurlRetry,
            GenerateStage::HttpRetry(e) => StageView::HttpRetry(e@),
            GenerateStage::ParseRetry(e) => StageView::ParseRetry(e@),
        }
    }
}

impl View for GenerateEvent {
    type V = EventView;

    open spec fn view(&self) -> EventView {
        match self {
            GenerateEvent::CurlDone(r) => EventView::CurlDone(image_result(*r)),
            GenerateEvent::HeadersFailed(e) => EventView::HeadersFailed(e@),
            GenerateEvent::SendFailed(e) => EventView::SendFailed(e@),
            GenerateEvent::Responded(s) => EventView::Responded(*s),
            GenerateEvent::Refreshed(r) => EventView::Refreshed(
                match r {
                    Ok(_) => Ok(()),
                    Err(e) => Err(e@),
                },
            ),
            GenerateEvent::Parsed(r) => EventView::Parsed(image_result(*r)),
        }
    }
}

impl View for GenerateStep {
    type V = StepView;

    open spec fn view(&self) -> StepView {
        match self {
            GenerateStep::Next(s) => StepView::Next(s@),
            GenerateStep::Finish(r) => StepView::Finish(image_result(*r)),
        }
    }
}

/// The work each stage asks for.
pub open spec fn stage_work(s: StageView) -> GenerateAction {
    match s {
        StageView::CurlFirst | StageView::CurlRetry => GenerateAction::RunCurl,
        StageView::HttpFirst(_) | StageView::HttpRetry(_) => GenerateAction::SendHttp,
        StageView::ParseFirst(_) | StageView::ParseRetry(_) => GenerateAction::ParseResponse,
        StageView::Refreshing => GenerateAction::Refresh,
    }
}

/// An event answers the work of the stage.
pub open spec fn event_fits(s: StageView, e: EventView) -> bool {
    match stage_work(s) {
        GenerateAction::RunCurl => e is CurlDone,
        GenerateAction::SendHttp => e is HeadersFailed || e is SendFailed || e is Responded,
        GenerateAction::ParseResponse => e is Parsed,
        GenerateAction::Refresh => e is Refreshed,
    }
}

/// One step of a generation. An image from any attempt ends it. A failed
/// `curl` falls back to the HTTP client; a first HTTP answer of 401 refreshes
/// the tokens once and tries `curl` and then HTTP again; the errors of the
/// fallbacks name the `curl` error that led to them.
pub open spec fn generate_step_spec(s: StageView, e: EventView) -> StepView {
    match (s, e) {
        (StageView::CurlFirst, EventView::CurlDone(Ok(img))) => StepView::Finish(Ok(img)),
        (StageView::CurlFirst, EventView::CurlDone(Err(ce))) => StepView::Next(
            StageView::HttpFirst(ce),
        ),
        (StageView::HttpFirst(_), EventView::HeadersFailed(m)) => StepView::Finish(Err(m)),
        (StageView::HttpFirst(ce), EventView::SendFailed(m)) => StepView::Finish(
            Err("Codex request failed after curl fallback error ("@ + ce + "): "@ + m),
        ),
        (StageView::HttpFirst(ce), EventView::Responded(status)) => if status == 401 {
            StepView::Next(StageView::Refreshing)
        } else {
            StepView::Next(StageView::ParseFirst(ce))
        },
        (StageView::ParseFirst(_), EventView::Parsed(Ok(img))) => StepView::Finish(Ok(img)),
        (StageView::ParseFirst(ce), EventView::Parsed(Err(m))) => StepView::Finish(
            Err(m + "; curl fallback also failed: "@ + ce),
        ),
        (StageView::Refreshing, EventView::Refreshed(Ok(_))) => StepView::Next(StageView::CurlRetry),
        (StageView::Refreshing, EventView::Refreshed(Err(m))) => StepView::Finish(Err(m)),
        (StageView::CurlRetry, EventView::CurlDone(Ok(img))) => StepView::Finish(Ok(img)),
        (StageView::CurlRetry, EventView::CurlDone(Err(re))) => StepView::Next(
            StageView::HttpRetry(re),
        ),
        (StageView::HttpRetry(_), EventView::HeadersFailed(m)) => StepView::Finish(Err(m)),
        (StageView::HttpRetry(re), EventView::SendFailed(m)) => StepView::Finish(
            Err("Codex retry failed after curl fallback error ("@ + re + "): "@ + m),
        ),
        (StageView::HttpRetry(re), EventView::Responded(_)) => StepView::Next(
            StageView::ParseRetry(re),
        ),
        (StageView::ParseRetry(_), EventView::Parsed(Ok(img))) => StepView::Finish(Ok(img)),
        (StageView::ParseRetry(re), EventView::Parsed(Err(m))) => StepView::Finish(
            Err(m + "; curl retry also failed: "@ + re),
        ),
        _ => StepView::Next(s),
    }
}

/// How many steps a stage is at most from the end of the generation.
pub open spec fn stage_rank(s: StageView) -> nat {
    match s {
        StageView::CurlFirst => 7,
        StageView::HttpFirst(_) => 6,
        StageView::ParseFirst(_) => 1,
        StageView::Refreshing => 4,
        StageView::CurlRetry => 3,
        StageView::HttpRetry(_) => 2,
        StageView::ParseRetry(_) => 1,
    }
}

/// The stage a generation starts in: a `curl` request.
pub fn generate_start() -> (r: GenerateStage)
    ensures
        r@ == StageView::CurlFirst,
{
    GenerateStage::CurlFirst
}

/// The work the app does for a stage.
pub fn generate_action(stage: &GenerateStage) -> (r: GenerateAction)
    ensures
        r == stage_work(stage@),
{
    match stage {
        GenerateStage::CurlFirst | GenerateStage::CurlRetry => GenerateAction::RunCurl,
        GenerateStage::HttpFirst(_) | GenerateStage::HttpRetry(_) => GenerateAction::SendHttp,
        GenerateStage::ParseFirst(_) | GenerateStage::ParseRetry(_) => GenerateAction::ParseResponse,
        GenerateStage::Refreshing => GenerateAction::Refresh,
    }
}

/// `a + b + c + d` as a string.
fn concat4(a: &str, b: &str, c: &str, d: &str) -> (r: String)
    ensures
        r@ == a@ + b@ + c@ + d@,
{
    let mut out: Vec<char> = Vec::new();
    push_str_chars(&mut out, a);
    push_str_chars(&mut out, b);
    push_str_chars(&mut out, c);
    push_str_chars(&mut out, d);
    string_of(&out)
}

/// Advances a generation by the outcome of the work its stage asked for (an
/// outcome of other work leaves the stage as it is).
pub fn generate_step(stage: GenerateStage, event: GenerateEvent) -> (r: GenerateStep)
    ensures
        r@ == generate_step_spec(stage@, event@),
{
    match (stage, event) {
        (GenerateStage::CurlFirst, GenerateEvent::CurlDone(Ok(img))) => GenerateStep::Finish(Ok(img)),
        (GenerateStage::CurlFirst, GenerateEvent::CurlDone(Err(ce))) => GenerateStep::Next(
            GenerateStage::HttpFirst(ce),
        ),
        (GenerateStage::HttpFirst(_), GenerateEvent::HeadersFailed(m)) => GenerateStep::Finish(
            Err(m),
        ),
        (GenerateStage::HttpFirst(ce), GenerateEvent::SendFailed(m)) => GenerateStep::Finish(
            Err(
                concat4(
                    "Codex request failed after curl fallback error (",
                    ce.as_str(),
                    "): ",
                    m.as_str(),
                ),
            ),
        ),
        (GenerateStage::HttpFirst(ce), GenerateEvent::Responded(status)) => if status == 401 {
            GenerateStep::Next(GenerateStage::Refreshing)
        } else {
            GenerateStep::Next(GenerateStage::ParseFirst(ce))
        },
        (GenerateStage::ParseFirst(_), GenerateEvent::Parsed(Ok(img))) => GenerateStep::Finish(
            Ok(img),
        ),
        (GenerateStage::ParseFirst(ce), GenerateEvent::Parsed(Err(m))) => GenerateStep::Finish(
            Err(crate::events::concat3(m.as_str(), "; curl fallback also failed: ", ce.as_str())),
        ),
        (GenerateStage::Refreshing, GenerateEvent::Refreshed(Ok(_))) => GenerateStep::Next(
            GenerateStage::CurlRetry,
        ),
        (GenerateStage::Refreshing, GenerateEvent::Refreshed(Err(m))) => GenerateStep::Finish(
            Err(m),
        ),
        (GenerateStage::CurlRetry, GenerateEvent::CurlDone(Ok(img))) => GenerateStep::Finish(Ok(img)),
        (GenerateStage::CurlRetry, GenerateEvent::CurlDone(Err(re))) => GenerateStep::Next(
            GenerateStage::HttpRetry(re),
        ),
        (GenerateStage::HttpRetry(_), GenerateEvent::HeadersFailed(m)) => GenerateStep::Finish(
            Err(m),
        ),
        (GenerateStage::HttpRetry(re), GenerateEvent::SendFailed(m)) => GenerateStep::Finish(
            Err(
                concat4(
                    "Codex retry failed after curl fallback error (",
                    re.as_str(),
                    "): ",
                    m.as_str(),
                ),
            ),
        ),
        (GenerateStage::HttpRetry(re), GenerateEvent::Responded(_)) => GenerateStep::Next(
            GenerateStage::ParseRetry(re),
        ),
        (GenerateStage::ParseRetry(_), GenerateEvent::Parsed(Ok(img))) => GenerateStep::Finish(
            Ok(img),
        ),
        (GenerateStage::ParseRetry(re), GenerateEvent::Parsed(Err(m))) => GenerateStep::Finish(
            Err(crate::events::concat3(m.as_str(), "; curl retry also failed: ", re.as_str())),
        ),
        (stage, _) => GenerateStep::Next(stage),
    }
}

/// Every step that does not finish the generation moves to a stage nearer
/// its end, so a generation takes at most seven steps: the tokens are
/// refreshed at most once.
pub proof fn law_generation_progresses(s: StageView, e: EventView)
    requires
        event_fits(s, e),
    ensures
        generate_step_spec(s, e) matches StepView::Next(t) ==> stage_rank(t) < stage_rank(s),
{
}

/// Only an unauthorized first HTTP answer leads to a refresh.
pub proof fn law_refresh_only_after_unauthorized(s: StageView, e: EventView)
    requires
        event_fits(s, e),
        generate_step_spec(s, e) == StepView::Next(StageView::Refreshing),
    ensures
        s is HttpFirst,
        e == EventView::Responded(401),
{
}

/// An image from any attempt is the result of the generation.
pub proof fn law_image_ends_generation(s: StageView, img: ImageView)
    ensures
        event_fits(s, EventView::CurlDone(Ok(img))) ==> generate_step_spec(
            s,
            EventView::CurlDone(Ok(img)),
        ) == StepView::Finish(Ok(img)),
        event_fits(s, EventView::Parsed(Ok(img))) ==> generate_step_spec(
            s,
            EventView::Parsed(Ok(img)),
        ) == StepView::Finish(Ok(img)),
{
}

/// What the app returns for a generated spritesheet once it is saved.
pub struct CodexGenerateResult {
    pub image_path: String,
    pub file_name: String,
    pub image_data_url: String,
    pub revised_prompt: Option<String>,
}

/// The bytes of a generated image: its base64 text decoded with the standard
/// padded alphabet.
pub fn decode_generated_png(image: &CodexGeneratedImage) -> (r: Result<Vec<u8>, String>)
    ensures
        match r {
            Ok(b) => crate::encoding::base64_decode(false, true, image@.png_base64) == Some(b@),
            Err(e) => crate::encoding::base64_decode(false, true, image@.png_base64) is None && e@
                == "Failed to decode generated spritesheet: "@
                + crate::encoding::spec_base64_standard_decode_error(image@.png_base64),
        },
{
    match crate::encoding::base64_standard_decode(image.png_base64.as_str()) {
        Ok(bytes) => {
            proof {
                crate::encoding::lemma_base64_decode_encoded(false, true, bytes@);
            }
            Ok(bytes)
        },
        Err(e) => Err(crate::oauth::message_with("Failed to decode generated spritesheet: ", e.as_str())),
    }
}

/// The file name of a spritesheet saved at Unix time `nanos` (nanoseconds).
pub open spec fn spritesheet_file_name_spec(nanos: i128) -> Seq<char> {
    "codex-spritesheet-"@ + int_decimal(nanos as int) + ".png"@
}

/// The file name of a spritesheet saved at Unix time `nanos` (nanoseconds).
pub fn spritesheet_file_name(nanos: i128) -> (r: String)
    ensures
        r@ == spritesheet_file_name_spec(nanos),
{
    let mut out: Vec<char> = Vec::new();
    push_str_chars(&mut out, "codex-spritesheet-");
    push_int(&mut out, nanos);
    push_str_chars(&mut out, ".png");
    string_of(&out)
}

/// The file name of a spritesheet saved now.
pub fn new_spritesheet_file_name() -> (r: String)
    ensures
        exists|nanos: i128| r@ == spritesheet_file_name_spec(nanos),
{
    spritesheet_file_name(crate::token::clock_unix_nanos())
}

/// What the app returns for a spritesheet saved at `image_path` as
/// `file_name`: also the image as a PNG data URL, and the revised prompt.
pub fn generate_result(image_path: String, file_name: String, image: &CodexGeneratedImage) -> (r:
    CodexGenerateResult)
    ensures
        r.image_path@ == image_path@,
        r.file_name@ == file_name@,
        r.image_data_url@ == "data:image/png;base64,"@ + image@.png_base64,
        opt_view(r.revised_prompt) == image@.revised_prompt,
{
    CodexGenerateResult {
        image_path,
        file_name,
        image_data_url: crate::oauth::message_with(
            "data:image/png;base64,",
            image.png_base64.as_str(),
        ),
        revised_prompt: copy_opt_string(&image.revised_prompt),
    }
}

} // verus!
