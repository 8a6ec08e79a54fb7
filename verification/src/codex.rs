//! Building a Codex image-generation request: the prompt, the request body,
//! the reference-image check, the HTTP headers and the `curl` arguments.
use vstd::prelude::*;
use crate::json::{JsonValue, JsonView, models, get, as_array, no_key_before, lemma_key_index_unique};
use crate::text::{
    chars_of, string_of, push_str_chars, trim, trim_str, is_blank, str_is_blank, split_once,
    ascii_lowercase, has_prefix, contains, find_char, slice_chars, lowercase_chars, starts_with,
    contains_chars, lemma_trim_idempotent, occurs_at,
};
use crate::token::{CodexTokenStorage, form_value, lemma_form_value_distinct, lemma_form_value_absent};

verus! {

broadcast use vstd::std_specs::vec::group_vec_axioms;

/// The Codex backend.
pub const CODEX_BASE_URL: &'static str = "https://chatgpt.com/backend-api/codex";

/// The Codex CLI version the requests present.
pub const CODEX_CLIENT_VERSION: &'static str = "0.101.0";

/// The user agent the requests present.
pub const CODEX_USER_AGENT: &'static str = "codex_cli_rs/0.101.0 (Mac OS 26.0.1; arm64) Apple_Terminal/464";

/// The model asked to draw.
pub const CODEX_IMAGE_MODEL: &'static str = "gpt-5.4";

/// The largest reference image data URL accepted, in bytes.
pub const CODEX_REFERENCE_IMAGE_MAX_DATA_URL_BYTES: usize = 24 * 1024 * 1024;

/// The opening of every prompt, before the user's request.
pub const PROMPT_LEAD: &'static str = "Create a clean 2D pixel-art animation spritesheet for this request: ";

/// The heading of the requirements list.
pub const PROMPT_REQUIREMENTS_HEAD: &'static str = "\n\nRequirements:";

/// The requirements added when a reference image is sent.
pub const PROMPT_REFERENCE_REQUIREMENTS: &'static str = "\n- use the provided input image only as the character design reference\n- preserve the same character identity, silhouette, proportions, outfit, colors, hairstyle, and carried items from the reference image\n- generate the requested animation frames as that same character; do not copy the reference background, pose layout, lighting, shadows, or image crop\n- if the reference character has a weapon or prop, keep it as part of the character body motion only";

/// The first requirement of every spritesheet.
pub const PROMPT_SHEET_OPENING: &'static str = "\n- output exactly one spritesheet image, not multiple separate images";

/// The requirements of every spritesheet between the first and the last.
pub const PROMPT_SHEET_RULES: &'static str = "\n- arrange the sheet as a strict grid with 6 frames per row\n- each row is exactly one animation sequence\n- use at most 6 rows total, so the maximum sheet is 6 x 6 frames: up to 6 animations with 6 frames each\n- if multiple animations are requested, put each animation on its own row; never wrap one animation across multiple rows\n- do not add extra rows, duplicate rows, filler rows, labels, or separators\n- show only the character and the raw body/weapon motion\n- do not include any action VFX or secondary effects: no muzzle flashes, bullets, projectiles, slash trails, impact sparks, hit flashes, smoke, dust, glow, particles, speed lines, magic effects, or motion smear\n- if the prompt describes shooting, swinging, casting, or attacking, animate only the character pose and held item; omit the emitted effect entirely\n- keep all frames aligned to a consistent baseline\n- use a flat solid bright magenta background (#ff00ff) only\n- keep even spacing and clean cell boundaries\n- no UI, no text, no watermark, no border\n- keep the whole character visible in every frame";

/// The last requirement of every spritesheet.
pub const PROMPT_SHEET_CLOSING: &'static str = "\n- style should be game-ready pixel art";

/// The requirements of every spritesheet.
pub open spec fn sheet_requirements() -> Seq<char> {
    PROMPT_SHEET_OPENING@ + PROMPT_SHEET_RULES@ + PROMPT_SHEET_CLOSING@
}

/// The prompt sent to Codex for a user's request.
pub open spec fn spritesheet_prompt(user_prompt: Seq<char>, has_reference_image: bool) -> Seq<char> {
    PROMPT_LEAD@ + user_prompt + PROMPT_REQUIREMENTS_HEAD@ + (if has_reference_image {
        PROMPT_REFERENCE_REQUIREMENTS@
    } else {
        Seq::empty()
    }) + sheet_requirements()
}

/// The heading of a prompt: the lead, the user's request and the heading of
/// the requirements list.
pub open spec fn prompt_heading(user_prompt: Seq<char>) -> Seq<char> {
    PROMPT_LEAD@ + user_prompt + PROMPT_REQUIREMENTS_HEAD@
}

/// `t` ends `s`.
pub open spec fn has_suffix(s: Seq<char>, t: Seq<char>) -> bool {
    t.len() <= s.len() && s.skip(s.len() - t.len()) == t
}

/// The letters `ref` appear nowhere in the requirements of every
/// spritesheet.
#[verifier::rlimit(100)]
proof fn lemma_sheet_requirements_lack_ref()
    ensures
        forall|i: int|
            0 <= i < sheet_requirements().len() - 2 ==> !(#[trigger] sheet_requirements()[i] == 'r'
                && sheet_requirements()[i + 1] == 'e' && sheet_requirements()[i + 2] == 'f'),
{
    reveal_strlit("\n- output exactly one spritesheet image, not multiple separate images");
    reveal_strlit("\n- arrange the sheet as a strict grid with 6 frames per row\n- each row is exactly one animation sequence\n- use at most 6 rows total, so the maximum sheet is 6 x 6 frames: up to 6 animations with 6 frames each\n- if multiple animations are requested, put each animation on its own row; never wrap one animation across multiple rows\n- do not add extra rows, duplicate rows, filler rows, labels, or separators\n- show only the character and the raw body/weapon motion\n- do not include any action VFX or secondary effects: no muzzle flashes, bullets, projectiles, slash trails, impact sparks, hit flashes, smoke, dust, glow, particles, speed lines, magic effects, or motion smear\n- if the prompt describes shooting, swinging, casting, or attacking, animate only the character pose and held item; omit the emitted effect entirely\n- keep all frames aligned to a consistent baseline\n- use a flat solid bright magenta background (#ff00ff) only\n- keep even spacing and clean cell boundaries\n- no UI, no text, no watermark, no border\n- keep the whole character visible in every frame");
    reveal_strlit("\n- style should be game-ready pixel art");
}

/// Without a reference image, a prompt is its heading followed by a list of
/// requirements that is the same whatever the request: it opens by asking
/// for exactly one spritesheet image, never mentions a reference, and the
/// prompt closes by asking for game-ready pixel art.
pub proof fn law_prompt_without_reference(p: Seq<char>, q: Seq<char>)
    ensures
        has_prefix(spritesheet_prompt(p, false), prompt_heading(p)),
        spritesheet_prompt(p, false).skip(prompt_heading(p).len() as int) == spritesheet_prompt(
            q,
            false,
        ).skip(prompt_heading(q).len() as int),
        has_prefix(
            spritesheet_prompt(p, false).skip(prompt_heading(p).len() as int),
            "\n- output exactly one spritesheet image"@,
        ),
        has_suffix(spritesheet_prompt(p, false), "- style should be game-ready pixel art"@),
        !contains(
            spritesheet_prompt(p, false).skip(prompt_heading(p).len() as int),
            "reference"@,
        ),
{
    let rest = sheet_requirements();
    assert(spritesheet_prompt(p, false) =~= prompt_heading(p) + rest);
    assert(spritesheet_prompt(q, false) =~= prompt_heading(q) + rest);
    assert((prompt_heading(p) + rest).take(prompt_heading(p).len() as int) =~= prompt_heading(p));
    assert((prompt_heading(p) + rest).skip(prompt_heading(p).len() as int) =~= rest);
    assert((prompt_heading(q) + rest).skip(prompt_heading(q).len() as int) =~= rest);
    reveal_strlit("\n- output exactly one spritesheet image, not multiple separate images");
    reveal_strlit("\n- output exactly one spritesheet image");
    reveal_strlit("\n- style should be game-ready pixel art");
    reveal_strlit("- style should be game-ready pixel art");
    assert(rest.take(39) =~= PROMPT_SHEET_OPENING@.take(39));
    assert(PROMPT_SHEET_OPENING@.take(39) =~= "\n- output exactly one spritesheet image"@);
    let s = prompt_heading(p) + rest;
    assert(s.skip(s.len() - 38) =~= PROMPT_SHEET_CLOSING@.skip(1));
    assert(PROMPT_SHEET_CLOSING@.skip(1) =~= "- style should be game-ready pixel art"@);
    reveal_strlit("reference");
    lemma_sheet_requirements_lack_ref();
    assert forall|i: int| !occurs_at(rest, "reference"@, i) by {
        if occurs_at(rest, "reference"@, i) {
            let w = rest.subrange(i, i + 9);
            assert(w[0] == rest[i] && w[1] == rest[i + 1] && w[2] == rest[i + 2]);
        }
    }
}

/// The full prompt for a user's request: the request, then the sheet
/// requirements, with the reference-image requirements when one is sent.
pub fn build_spritesheet_prompt(user_prompt: &str, has_reference_image: bool) -> (r: String)
    ensures
        r@ == spritesheet_prompt(user_prompt@, has_reference_image),
{
    let mut out: Vec<char> = Vec::new();
    push_str_chars(&mut out, PROMPT_LEAD);
    push_str_chars(&mut out, user_prompt);
    push_str_chars(&mut out, PROMPT_REQUIREMENTS_HEAD);
    if has_reference_image {
        push_str_chars(&mut out, PROMPT_REFERENCE_REQUIREMENTS);
    }
    push_str_chars(&mut out, PROMPT_SHEET_OPENING);
    push_str_chars(&mut out, PROMPT_SHEET_RULES);
    push_str_chars(&mut out, PROMPT_SHEET_CLOSING);
    assert(out@ =~= spritesheet_prompt(user_prompt@, has_reference_image));
    string_of(&out)
}

/// A JSON string.
pub open spec fn js(s: Seq<char>) -> JsonView {
    JsonView::Str(s)
}

/// The content items of the user message: the prompt text, then the
/// reference image when there is one.
pub open spec fn request_content(prompt: Seq<char>, reference: Option<Seq<char>>) -> Seq<JsonView> {
    let text = JsonView::Object(
        seq![
            ("type"@, js("input_text"@)),
            ("text"@, js(spritesheet_prompt(prompt, reference is Some))),
        ],
    );
    match reference {
        Some(url) => seq![
            text,
            JsonView::Object(seq![("type"@, js("input_image"@)), ("image_url"@, js(url))]),
        ],
        None => seq![text],
    }
}

/// The body of a streamed image-generation request.
pub open spec fn codex_request(prompt: Seq<char>, reference: Option<Seq<char>>) -> JsonView {
    JsonView::Object(
        seq![
            ("model"@, js(CODEX_IMAGE_MODEL@)),
            ("stream"@, JsonView::Bool(true)),
            ("store"@, JsonView::Bool(false)),
            ("parallel_tool_calls"@, JsonView::Bool(true)),
            ("include"@, JsonView::Array(seq![js("reasoning.encrypted_content"@)])),
            ("instructions"@, js(""@)),
            (
                "input"@,
                JsonView::Array(
                    seq![
                        JsonView::Object(
                            seq![
                                ("type"@, js("message"@)),
                                ("role"@, js("user"@)),
                                ("content"@, JsonView::Array(request_content(prompt, reference))),
                            ],
                        ),
                    ],
                ),
            ),
            (
                "tools"@,
                JsonView::Array(
                    seq![
                        JsonView::Object(
                            seq![
                                ("type"@, js("image_generation"@)),
                                ("size"@, js("auto"@)),
                                ("partial_images"@, JsonView::Number(Some(2))),
                            ],
                        ),
                    ],
                ),
            ),
        ],
    )
}

/// The models of object entries.
pub open spec fn entry_models(entries: Seq<(String, JsonValue)>) -> Seq<(Seq<char>, JsonView)> {
    entries.map_values(|e: (String, JsonValue)| (e.0@, e.1@))
}

fn jstr(s: &str) -> (r: JsonValue)
    ensures
        r@ == js(s@),
{
    JsonValue::Str(s.to_owned())
}

fn jobj(entries: Vec<(String, JsonValue)>) -> (r: JsonValue)
    ensures
        r@ == JsonView::Object(entry_models(entries@)),
{
    let r = JsonValue::Object(entries);
    assert(match r@ {
        JsonView::Object(es) => es =~= entry_models(entries@),
        _ => false,
    });
    r
}

fn jarr(items: Vec<JsonValue>) -> (r: JsonValue)
    ensures
        r@ == JsonView::Array(models(items@)),
{
    let r = JsonValue::Array(items);
    assert(match r@ {
        JsonView::Array(ms) => ms =~= models(items@),
        _ => false,
    });
    r
}

fn entry(key: &str, value: JsonValue) -> (r: (String, JsonValue))
    ensures
        r.0@ == key@,
        r.1@ == value@,
{
    (key.to_owned(), value)
}

fn content_items(prompt: &str, reference: Option<&str>) -> (r: Vec<JsonValue>)
    ensures
        models(r@) == request_content(
            prompt@,
            match reference {
                Some(u) => Some(u@),
                None => None,
            },
        ),
{
    let text = build_spritesheet_prompt(prompt, reference.is_some());
    let mut t: Vec<(String, JsonValue)> = Vec::new();
    t.push(entry("type", jstr("input_text")));
    t.push(entry("text", JsonValue::Str(text)));
    let text_item = jobj(t);
    let ghost ref_view = match reference {
        Some(u) => Some(u@),
        None => None::<Seq<char>>,
    };
    assert(text_item@ == request_content(prompt@, ref_view)[0]) by {
        assert(entry_models(t@) =~= seq![
            ("type"@, js("input_text"@)),
            ("text"@, js(spritesheet_prompt(prompt@, ref_view is Some))),
        ]);
    }
    let mut items: Vec<JsonValue> = Vec::new();
    items.push(text_item);
    if let Some(url) = reference {
        let mut im: Vec<(String, JsonValue)> = Vec::new();
        im.push(entry("type", jstr("input_image")));
        im.push(entry("image_url", jstr(url)));
        assert(entry_models(im@) =~= seq![("type"@, js("input_image"@)), ("image_url"@, js(url@))]);
        items.push(jobj(im));
    }
    assert(models(items@) =~= request_content(prompt@, ref_view));
    items
}

/// The body of the image-generation request for `prompt`, with the reference
/// image data URL when one is given.
pub fn build_codex_request(prompt: &str, reference_image_data_url: Option<&str>) -> (r: JsonValue)
    ensures
        r@ == codex_request(
            prompt@,
            match reference_image_data_url {
                Some(u) => Some(u@),
                None => None,
            },
        ),
{
    let ghost ref_view = match reference_image_data_url {
        Some(u) => Some(u@),
        None => None::<Seq<char>>,
    };
    let content = content_items(prompt, reference_image_data_url);
    let content_json = jarr(content);

    let mut msg: Vec<(String, JsonValue)> = Vec::new();
    msg.push(entry("type", jstr("message")));
    msg.push(entry("role", jstr("user")));
    msg.push(entry("content", content_json));
    let ghost msg_view = JsonView::Object(
        seq![
            ("type"@, js("message"@)),
            ("role"@, js("user"@)),
            ("content"@, JsonView::Array(request_content(prompt@, ref_view))),
        ],
    );
    assert(entry_models(msg@) =~= match msg_view {
        JsonView::Object(es) => es,
        _ => Seq::empty(),
    });
    let mut input: Vec<JsonValue> = Vec::new();
    input.push(jobj(msg));
    assert(models(input@) =~= seq![msg_view]);

    let mut tool: Vec<(String, JsonValue)> = Vec::new();
    tool.push(entry("type", jstr("image_generation")));
    tool.push(entry("size", jstr("auto")));
    tool.push(entry("partial_images", JsonValue::Number(Some(2))));
    let ghost tool_view = JsonView::Object(
        seq![
            ("type"@, js("image_generation"@)),
            ("size"@, js("auto"@)),
            ("partial_images"@, JsonView::Number(Some(2))),
        ],
    );
    assert(entry_models(tool@) =~= match tool_view {
        JsonView::Object(es) => es,
        _ => Seq::empty(),
    });
    let mut tools: Vec<JsonValue> = Vec::new();
    tools.push(jobj(tool));
    assert(models(tools@) =~= seq![tool_view]);

    let mut included: Vec<JsonValue> = Vec::new();
    included.push(jstr("reasoning.encrypted_content"));
    assert(models(included@) =~= seq![js("reasoning.encrypted_content"@)]);

    let mut top: Vec<(String, JsonValue)> = Vec::new();
    top.push(entry("model", jstr(CODEX_IMAGE_MODEL)));
    top.push(entry("stream", JsonValue::Bool(true)));
    top.push(entry("store", JsonValue::Bool(false)));
    top.push(entry("parallel_tool_calls", JsonValue::Bool(true)));
    top.push(entry("include", jarr(included)));
    top.push(entry("instructions", jstr("")));
    top.push(entry("input", jarr(input)));
    top.push(entry("tools", jarr(tools)));
    let r = jobj(top);
    assert(entry_models(top@) =~= match codex_request(prompt@, ref_view) {
        JsonView::Object(es) => es,
        _ => Seq::empty(),
    });
    r
}

/// The supported image kinds of a reference data URL, by their prefixes.
pub open spec fn supported_image_prefix(header: Seq<char>) -> bool {
    ||| has_prefix(header, "data:image/png"@)
    ||| has_prefix(header, "data:image/jpeg"@)
    ||| has_prefix(header, "data:image/jpg"@)
    ||| has_prefix(header, "data:image/webp"@)
    ||| has_prefix(header, "data:image/gif"@)
}

/// The check of an optional reference image: blank or absent means none; a
/// data URL is accepted, trimmed, when it fits the size limit (counted in
/// UTF-8 bytes) and its header (before the first `,`, in ASCII lowercase) is a
/// supported image type with `;base64`.
pub open spec fn sanitized_reference(value: Option<Seq<char>>) -> Result<
    Option<Seq<char>>,
    Seq<char>,
> {
    match value {
        None => Ok(None),
        Some(raw) => {
            let d = trim(raw);
            if d.len() == 0 {
                Ok(None)
            } else if vstd::utf8::encode_utf8(d).len() > CODEX_REFERENCE_IMAGE_MAX_DATA_URL_BYTES {
                Err("Reference image is too large."@)
            } else {
                match split_once(d, ',') {
                    None => Err("Reference image must be a base64 image data URL."@),
                    Some((header, _)) => {
                        let h = ascii_lowercase(header);
                        if !supported_image_prefix(h) || !contains(h, ";base64"@) {
                            Err("Reference image must be a PNG, JPG, WEBP, or GIF data URL."@)
                        } else {
                            Ok(Some(d))
                        }
                    },
                }
            }
        },
    }
}

fn has_prefix_exec(s: &Vec<char>, p: &str) -> (r: bool)
    ensures
        r == has_prefix(s@, p@),
{
    let pc = chars_of(p);
    starts_with(s, &pc)
}

/// Checks the reference image data URL of a generation request.
pub fn sanitize_reference_image_data_url(value: Option<&String>) -> (r: Result<
    Option<String>,
    String,
>)
    ensures
        match r {
            Ok(Some(d)) => sanitized_reference(
                match value {
                    Some(v) => Some(v@),
                    None => None,
                },
            ) == Ok::<Option<Seq<char>>, Seq<char>>(Some(d@)),
            Ok(None) => sanitized_reference(
                match value {
                    Some(v) => Some(v@),
                    None => None,
                },
            ) == Ok::<Option<Seq<char>>, Seq<char>>(None),
            Err(e) => sanitized_reference(
                match value {
                    Some(v) => Some(v@),
                    None => None,
                },
            ) == Err::<Option<Seq<char>>, Seq<char>>(e@),
        },
{
    let raw = match value {
        None => return Ok(None),
        Some(v) => v,
    };
    let data_url = trim_str(raw.as_str());
    if data_url.as_str().is_empty() {
        return Ok(None);
    }
    let cs = chars_of(data_url.as_str());
    if crate::text::utf8_len_exceeds(&cs, CODEX_REFERENCE_IMAGE_MAX_DATA_URL_BYTES) {
        return Err("Reference image is too large.".to_owned());
    }
    let comma = match find_char(&cs, ',') {
        None => return Err("Reference image must be a base64 image data URL.".to_owned()),
        Some(i) => i,
    };
    let header_raw = slice_chars(&cs, 0, comma);
    assert(header_raw@ =~= cs@.take(comma as int));
    let header = lowercase_chars(&header_raw);
    let supported = has_prefix_exec(&header, "data:image/png") || has_prefix_exec(
        &header,
        "data:image/jpeg",
    ) || has_prefix_exec(&header, "data:image/jpg") || has_prefix_exec(&header, "data:image/webp")
        || has_prefix_exec(&header, "data:image/gif");
    let b64 = chars_of(";base64");
    if !supported || !contains_chars(&header, &b64) {
        return Err("Reference image must be a PNG, JPG, WEBP, or GIF data URL.".to_owned());
    }
    Ok(Some(data_url))
}

/// A reference image that passed the check passes it again unchanged.
pub proof fn law_sanitize_idempotent(value: Option<Seq<char>>, d: Seq<char>)
    requires
        sanitized_reference(value) == Ok::<Option<Seq<char>>, Seq<char>>(Some(d)),
    ensures
        sanitized_reference(Some(d)) == Ok::<Option<Seq<char>>, Seq<char>>(Some(d)),
{
    let raw = value->Some_0;
    lemma_trim_idempotent(raw);
}

/// Which data URLs the reference-image check accepts: once trimmed, a
/// non-empty text within the size limit whose header (before the first `,`,
/// in ASCII lowercase) names a PNG, JPEG, JPG, WEBP or GIF image and holds
/// `;base64`. An accepted URL comes back trimmed and otherwise unchanged.
pub proof fn law_reference_image_kinds(raw: Seq<char>)
    ensures
        ({
            let d = trim(raw);
            let accepted = d.len() > 0 && vstd::utf8::encode_utf8(d).len()
                <= CODEX_REFERENCE_IMAGE_MAX_DATA_URL_BYTES && match split_once(d, ',') {
                Some((header, _)) => {
                    let h = ascii_lowercase(header);
                    (has_prefix(h, "data:image/png"@) || has_prefix(h, "data:image/jpeg"@)
                        || has_prefix(h, "data:image/jpg"@) || has_prefix(h, "data:image/webp"@)
                        || has_prefix(h, "data:image/gif"@)) && contains(h, ";base64"@)
                },
                None => false,
            };
            &&& accepted <==> sanitized_reference(Some(raw)) == Ok::<Option<Seq<char>>, Seq<char>>(
                Some(d),
            )
            &&& !accepted && d.len() > 0 ==> sanitized_reference(Some(raw)) is Err
            &&& sanitized_reference(Some(raw)) matches Ok(Some(x)) ==> x == d
        }),
{
}

/// How the reference-image check answers each kind of input: no input or a
/// blank one means no reference image; a trimmed text over the size limit is
/// too large; one with no `,` is not a data URL; one whose header names no
/// supported image type, or lacks `;base64`, is refused naming the types.
pub proof fn law_reference_image_errors(raw: Seq<char>)
    ensures
        sanitized_reference(None) == Ok::<Option<Seq<char>>, Seq<char>>(None),
        ({
            let d = trim(raw);
            let small = vstd::utf8::encode_utf8(d).len() <= CODEX_REFERENCE_IMAGE_MAX_DATA_URL_BYTES;
            &&& d.len() == 0 ==> sanitized_reference(Some(raw)) == Ok::<
                Option<Seq<char>>,
                Seq<char>,
            >(None)
            &&& d.len() > 0 && !small ==> sanitized_reference(Some(raw)) == Err::<
                Option<Seq<char>>,
                Seq<char>,
            >("Reference image is too large."@)
            &&& d.len() > 0 && small && split_once(d, ',') is None ==> sanitized_reference(
                Some(raw),
            ) == Err::<Option<Seq<char>>, Seq<char>>(
                "Reference image must be a base64 image data URL."@,
            )
            &&& d.len() > 0 && small && split_once(d, ',') is Some && sanitized_reference(
                Some(raw),
            ) is Err ==> sanitized_reference(Some(raw)) == Err::<Option<Seq<char>>, Seq<char>>(
                "Reference image must be a PNG, JPG, WEBP, or GIF data URL."@,
            )
        }),
{
}

/// The content items of the user message of a request body.
pub open spec fn user_content(body: JsonView) -> Option<Seq<JsonView>> {
    match get(body, "input"@) {
        Some(input) => match as_array(input) {
            Some(messages) => if messages.len() > 0 {
                match get(messages[0], "content"@) {
                    Some(c) => as_array(c),
                    None => None,
                }
            } else {
                None
            },
            None => None,
        },
        None => None,
    }
}

proof fn lemma_request_content_found(prompt: Seq<char>, reference: Option<Seq<char>>)
    ensures
        user_content(codex_request(prompt, reference)) == Some(request_content(prompt, reference)),
{
    reveal_strlit("model");
    reveal_strlit("stream");
    reveal_strlit("store");
    reveal_strlit("parallel_tool_calls");
    reveal_strlit("include");
    reveal_strlit("instructions");
    reveal_strlit("input");
    reveal_strlit("type");
    reveal_strlit("role");
    reveal_strlit("content");
    let es = match codex_request(prompt, reference) {
        JsonView::Object(es) => es,
        _ => Seq::empty(),
    };
    assert forall|j: int| 0 <= j < 6 implies (#[trigger] es[j]).0 != "input"@ by {
        assert(es[j].0.len() != 5 || es[j].0[0] != 'i' || es[j].0[1] != 'n');
    }
    assert(no_key_before(es, "input"@, 6));
    lemma_key_index_unique(es, "input"@, 6);
    let msg = match es[6].1 {
        JsonView::Array(ms) => ms[0],
        _ => JsonView::Null,
    };
    let ms = match msg {
        JsonView::Object(m) => m,
        _ => Seq::empty(),
    };
    assert forall|j: int| 0 <= j < 2 implies (#[trigger] ms[j]).0 != "content"@ by {
        assert(ms[j].0.len() != 7);
    }
    assert(no_key_before(ms, "content"@, 2));
    lemma_key_index_unique(ms, "content"@, 2);
}

/// The user message of a request holds the prompt as its first content item
/// (an `input_text`), and, exactly when a reference image `u` is given, a
/// second item that sends it as an image: `{"type": "input_image",
/// "image_url": u}`.
pub proof fn law_request_sends_reference_as_image(prompt: Seq<char>, u: Seq<char>)
    ensures
        user_content(codex_request(prompt, Some(u))) matches Some(c) && c.len() == 2 && c[1]
            == JsonView::Object(
            seq![("type"@, JsonView::Str("input_image"@)), ("image_url"@, JsonView::Str(u))],
        ) && c[0] == JsonView::Object(
            seq![
                ("type"@, JsonView::Str("input_text"@)),
                ("text"@, JsonView::Str(spritesheet_prompt(prompt, true))),
            ],
        ),
        user_content(codex_request(prompt, None)) matches Some(c) && c.len() == 1 && c[0]
            == JsonView::Object(
            seq![
                ("type"@, JsonView::Str("input_text"@)),
                ("text"@, JsonView::Str(spritesheet_prompt(prompt, false))),
            ],
        ),
{
    lemma_request_content_found(prompt, Some(u));
    lemma_request_content_found(prompt, None);
}

/// The body of a generation request from the user's prompt and optional
/// reference image: the reference is checked first.
pub fn prepare_codex_request(prompt: &str, reference_image_data_url: Option<&String>) -> (r: Result<
    JsonValue,
    String,
>)
    ensures
        match sanitized_reference(
            match reference_image_data_url {
                Some(v) => Some(v@),
                None => None,
            },
        ) {
            Err(e) => r matches Err(m) && m@ == e,
            Ok(reference) => r matches Ok(body) && body@ == codex_request(prompt@, reference),
        },
{
    match sanitize_reference_image_data_url(reference_image_data_url) {
        Err(e) => Err(e),
        Ok(Some(d)) => Ok(build_codex_request(prompt, Some(d.as_str()))),
        Ok(None) => Ok(build_codex_request(prompt, None)),
    }
}

/// The check of a generation request's prompt: it must not be blank.
pub fn validate_generate_prompt(prompt: &str) -> (r: Result<(), String>)
    ensures
        r is Ok <==> !is_blank(prompt@),
        r matches Err(e) ==> e@ == "Prompt is required."@,
{
    if str_is_blank(prompt) {
        Err("Prompt is required.".to_owned())
    } else {
        Ok(())
    }
}

/// The check of a URL to open in the browser: it must not be blank.
pub fn check_external_url(url: &str) -> (r: Result<(), String>)
    ensures
        r is Ok <==> !is_blank(url@),
        r matches Err(e) ==> e@ == "Missing URL to open."@,
{
    if str_is_blank(url) {
        Err("Missing URL to open.".to_owned())
    } else {
        Ok(())
    }
}

/// A byte allowed in an HTTP header value: visible ASCII, a space, a tab, or
/// any byte of a non-ASCII character.
pub open spec fn header_byte_ok(b: u8) -> bool {
    (b >= 32 && b != 127) || b == 9
}

/// A text that `HeaderValue::from_str` accepts: all its UTF-8 bytes allowed.
pub open spec fn valid_header_value(s: Seq<char>) -> bool {
    forall|i: int|
        0 <= i < vstd::utf8::encode_utf8(s).len() ==> header_byte_ok(
            #[trigger] vstd::utf8::encode_utf8(s)[i],
        )
}

/// The `Display` text of the error `HeaderValue::from_str` returns.
pub open spec fn header_error_text() -> Seq<char> {
    "failed to parse header value"@
}

/// `reqwest::header::HeaderValue::from_str(value)` (of the `http` crate): it
/// fails exactly when a byte of the value is a control character other than a
/// tab, or DEL. Claims that, and the error's text.
#[verifier::external_body]
pub(crate) fn header_value_error(value: &str) -> (r: Option<String>)
    ensures
        r is None <==> valid_header_value(value@),
        r matches Some(m) ==> m@ == header_error_text(),
{
    match reqwest::header::HeaderValue::from_str(value) {
        Ok(_) => None,
        Err(error) => Some(error.to_string()),
    }
}

/// The headers of a Codex request, in order, for the access token, account id
/// and session id; or the error for the first value that is not a valid
/// header value. The account header is sent only for a non-blank account.
pub open spec fn codex_headers(
    access_token: Seq<char>,
    account_id: Seq<char>,
    session_id: Seq<char>,
    stream: bool,
) -> Result<Seq<(Seq<char>, Seq<char>)>, Seq<char>> {
    let auth = "Bearer "@ + access_token;
    if !valid_header_value(auth) {
        Err("Invalid authorization header: "@ + header_error_text())
    } else if !valid_header_value(session_id) {
        Err("Invalid session header: "@ + header_error_text())
    } else {
        let base = seq![
            ("content-type"@, "application/json"@),
            ("authorization"@, auth),
            ("version"@, CODEX_CLIENT_VERSION@),
            ("session_id"@, session_id),
            ("user-agent"@, CODEX_USER_AGENT@),
            (
                "accept"@,
                if stream {
                    "text/event-stream"@
                } else {
                    "application/json"@
                },
            ),
            ("accept-encoding"@, "identity"@),
            ("connection"@, "Keep-Alive"@),
            ("originator"@, "codex_cli_rs"@),
        ];
        if is_blank(account_id) {
            Ok(base)
        } else if !valid_header_value(account_id) {
            Err("Invalid Chatgpt-Account-Id header: "@ + header_error_text())
        } else {
            Ok(base.push(("chatgpt-account-id"@, account_id)))
        }
    }
}

/// The headers of a Codex request can be made exactly when the bearer
/// authorization, the session id and any non-blank account id are valid
/// header values; they then authorize with `Bearer` and the access token,
/// send JSON, name the session, accept the event stream when streaming (JSON
/// otherwise), and name the account only when its id is not blank.
pub proof fn law_codex_headers(
    access_token: Seq<char>,
    account_id: Seq<char>,
    session_id: Seq<char>,
    stream: bool,
)
    ensures
        codex_headers(access_token, account_id, session_id, stream) is Ok <==> valid_header_value(
            "Bearer "@ + access_token,
        ) && valid_header_value(session_id) && (is_blank(account_id) || valid_header_value(
            account_id,
        )),
        codex_headers(access_token, account_id, session_id, stream) is Ok ==> ({
            let hs = codex_headers(access_token, account_id, session_id, stream)->Ok_0;
            &&& form_value(hs, "authorization"@) == Some("Bearer "@ + access_token)
            &&& form_value(hs, "content-type"@) == Some("application/json"@)
            &&& form_value(hs, "session_id"@) == Some(session_id)
            &&& form_value(hs, "accept"@) == Some(
                if stream {
                    "text/event-stream"@
                } else {
                    "application/json"@
                },
            )
            &&& form_value(hs, "chatgpt-account-id"@) == if is_blank(account_id) {
                None
            } else {
                Some(account_id)
            }
        }),
{
    reveal_strlit("content-type");
    reveal_strlit("authorization");
    reveal_strlit("version");
    reveal_strlit("session_id");
    reveal_strlit("user-agent");
    reveal_strlit("accept");
    reveal_strlit("accept-encoding");
    reveal_strlit("connection");
    reveal_strlit("originator");
    reveal_strlit("chatgpt-account-id");
    if codex_headers(access_token, account_id, session_id, stream) is Ok {
        let hs = codex_headers(access_token, account_id, session_id, stream)->Ok_0;
        assert forall|a: int, b: int| 0 <= a < b < hs.len() implies (#[trigger] hs[a]).0 != (
        #[trigger] hs[b]).0 by {
            assert(hs[a].0.len() != hs[b].0.len() || hs[a].0[0] != hs[b].0[0]);
        }
        lemma_form_value_distinct(hs, 0);
        lemma_form_value_distinct(hs, 1);
        lemma_form_value_distinct(hs, 3);
        lemma_form_value_distinct(hs, 5);
        if is_blank(account_id) {
            assert forall|j: int| 0 <= j < hs.len() implies (#[trigger] hs[j]).0
                != "chatgpt-account-id"@ by {
                assert(hs[j].0.len() != 18);
            }
            lemma_form_value_absent(hs, "chatgpt-account-id"@);
        } else {
            lemma_form_value_distinct(hs, 9);
        }
    }
}

/// Header pairs by their views.
pub open spec fn header_views(v: Seq<(String, String)>) -> Seq<(Seq<char>, Seq<char>)> {
    v.map_values(|p: (String, String)| (p.0@, p.1@))
}

/// A header list, or its error, by views.
pub open spec fn headers_outcome(r: Result<Vec<(String, String)>, String>) -> Result<
    Seq<(Seq<char>, Seq<char>)>,
    Seq<char>,
> {
    match r {
        Ok(v) => Ok(header_views(v@)),
        Err(e) => Err(e@),
    }
}

fn header(name: &str, value: String) -> (r: (String, String))
    ensures
        r.0@ == name@,
        r.1@ == value@,
{
    (name.to_owned(), value)
}

/// The headers of a Codex request with the given session id.
pub fn codex_header_pairs(token: &CodexTokenStorage, stream: bool, session_id: &str) -> (r: Result<
    Vec<(String, String)>,
    String,
>)
    ensures
        headers_outcome(r) == codex_headers(
            token@.access_token,
            token@.account_id,
            session_id@,
            stream,
        ),
{
    let auth = crate::oauth::message_with("Bearer ", token.access_token.as_str());
    if let Some(e) = header_value_error(auth.as_str()) {
        return Err(crate::oauth::message_with("Invalid authorization header: ", e.as_str()));
    }
    if let Some(e) = header_value_error(session_id) {
        return Err(crate::oauth::message_with("Invalid session header: ", e.as_str()));
    }
    let mut v: Vec<(String, String)> = Vec::new();
    v.push(header("content-type", "application/json".to_owned()));
    v.push(header("authorization", auth));
    v.push(header("version", CODEX_CLIENT_VERSION.to_owned()));
    v.push(header("session_id", session_id.to_owned()));
    v.push(header("user-agent", CODEX_USER_AGENT.to_owned()));
    let accept = if stream {
        "text/event-stream"
    } else {
        "application/json"
    };
    v.push(header("accept", accept.to_owned()));
    v.push(header("accept-encoding", "identity".to_owned()));
    v.push(header("connection", "Keep-Alive".to_owned()));
    v.push(header("originator", "codex_cli_rs".to_owned()));
    let ghost base = header_views(v@);
    assert(base =~= seq![
        ("content-type"@, "application/json"@),
        ("authorization"@, "Bearer "@ + token@.access_token),
        ("version"@, CODEX_CLIENT_VERSION@),
        ("session_id"@, session_id@),
        ("user-agent"@, CODEX_USER_AGENT@),
        (
            "accept"@,
            if stream {
                "text/event-stream"@
            } else {
                "application/json"@
            },
        ),
        ("accept-encoding"@, "identity"@),
        ("connection"@, "Keep-Alive"@),
        ("originator"@, "codex_cli_rs"@),
    ]);
    if !str_is_blank(token.account_id.as_str()) {
        if let Some(e) = header_value_error(token.account_id.as_str()) {
            return Err(
                crate::oauth::message_with("Invalid Chatgpt-Account-Id header: ", e.as_str()),
            );
        }
        v.push(header("chatgpt-account-id", token.account_id.clone()));
        assert(header_views(v@) =~= base.push(("chatgpt-account-id"@, token@.account_id)));
    }
    Ok(v)
}

/// The headers of a Codex request, with a fresh random session id (16 random
/// bytes in lowercase hexadecimal).
pub fn build_codex_headers(token: &CodexTokenStorage, stream: bool) -> (r: Result<
    Vec<(String, String)>,
    String,
>)
    ensures
        exists|b: Seq<u8>|
            b.len() == 16 && headers_outcome(r) == codex_headers(
                token@.access_token,
                token@.account_id,
                #[trigger] crate::encoding::hex_lower(b),
                stream,
            ),
{
    let session = crate::encoding::random_hex(16);
    codex_header_pairs(token, stream, session.as_str())
}

/// The URL that image-generation requests are sent to.
pub open spec fn responses_url() -> Seq<char> {
    CODEX_BASE_URL@ + "/responses"@
}

/// The URL that image-generation requests are sent to.
pub fn codex_responses_url() -> (r: String)
    ensures
        r@ == responses_url(),
{
    crate::oauth::message_with(CODEX_BASE_URL, "/responses")
}

/// The arguments of the `curl` command that sends a generation request (its
/// body read from standard input).
pub open spec fn curl_args(access_token: Seq<char>, account_id: Seq<char>, session_id: Seq<char>) -> Seq<
    Seq<char>,
> {
    seq![
        "--http1.1"@,
        "-sS"@,
        "--fail-with-body"@,
        responses_url(),
        "-H"@,
        "content-type: application/json"@,
        "-H"@,
        "authorization: Bearer "@ + access_token,
        "-H"@,
        "version: "@ + CODEX_CLIENT_VERSION@,
        "-H"@,
        "session_id: "@ + session_id,
        "-H"@,
        "user-agent: "@ + CODEX_USER_AGENT@,
        "-H"@,
        "accept: text/event-stream"@,
        "-H"@,
        "accept-encoding: identity"@,
        "-H"@,
        "connection: Keep-Alive"@,
        "-H"@,
        "originator: codex_cli_rs"@,
        "-H"@,
        "chatgpt-account-id: "@ + account_id,
        "--data-binary"@,
        "@-"@,
    ]
}

/// The `curl` arguments for a generation request with the given session id.
pub fn curl_request_args(token: &CodexTokenStorage, session_id: &str) -> (r: Vec<String>)
    ensures
        crate::text::views(r@) == curl_args(token@.access_token, token@.account_id, session_id@),
{
    let mut v: Vec<String> = Vec::new();
    v.push("--http1.1".to_owned());
    v.push("-sS".to_owned());
    v.push("--fail-with-body".to_owned());
    v.push(codex_responses_url());
    v.push("-H".to_owned());
    v.push("content-type: application/json".to_owned());
    v.push("-H".to_owned());
    v.push(crate::oauth::message_with("authorization: Bearer ", token.access_token.as_str()));
    v.push("-H".to_owned());
    v.push(crate::oauth::message_with("version: ", CODEX_CLIENT_VERSION));
    v.push("-H".to_owned());
    v.push(crate::oauth::message_with("session_id: ", session_id));
    v.push("-H".to_owned());
    v.push(crate::oauth::message_with("user-agent: ", CODEX_USER_AGENT));
    v.push("-H".to_owned());
    v.push("accept: text/event-stream".to_owned());
    v.push("-H".to_owned());
    v.push("accept-encoding: identity".to_owned());
    v.push("-H".to_owned());
    v.push("connection: Keep-Alive".to_owned());
    v.push("-H".to_owned());
    v.push("originator: codex_cli_rs".to_owned());
    v.push("-H".to_owned());
    v.push(crate::oauth::message_with("chatgpt-account-id: ", token.account_id.as_str()));
    v.push("--data-binary".to_owned());
    v.push("@-".to_owned());
    assert(crate::text::views(v@) =~= curl_args(
        token@.access_token,
        token@.account_id,
        session_id@,
    ));
    v
}

/// The `curl` arguments for a generation request, with a fresh random session
/// id (16 random bytes in lowercase hexadecimal).
pub fn codex_curl_args(token: &CodexTokenStorage) -> (r: Vec<String>)
    ensures
        exists|b: Seq<u8>|
            b.len() == 16 && crate::text::views(r@) == curl_args(
                token@.access_token,
                token@.account_id,
                #[trigger] crate::encoding::hex_lower(b),
            ),
{
    let session = crate::encoding::random_hex(16);
    curl_request_args(token, session.as_str())
}

/// `{:?}` of an optional exit code.
pub open spec fn debug_exit_code(code: Option<i32>) -> Seq<char> {
    match code {
        Some(c) => "Some("@ + crate::text::int_decimal(c as int) + ")"@,
        None => "None"@,
    }
}

/// The message when `curl` exited with a failure.
pub fn curl_failure_message(code: Option<i32>, stderr: &str, stdout: &str) -> (r: String)
    ensures
        r@ == "curl Codex request failed (status "@ + debug_exit_code(code) + "): "@ + trim(stderr@)
            + " "@ + trim(stdout@),
{
    let mut out: Vec<char> = Vec::new();
    push_str_chars(&mut out, "curl Codex request failed (status ");
    match code {
        Some(c) => {
            push_str_chars(&mut out, "Some(");
            crate::text::push_int(&mut out, c as i128);
            push_str_chars(&mut out, ")");
        },
        None => {
            push_str_chars(&mut out, "None");
        },
    }
    push_str_chars(&mut out, "): ");
    let e = trim_str(stderr);
    push_str_chars(&mut out, e.as_str());
    push_str_chars(&mut out, " ");
    let o = trim_str(stdout);
    push_str_chars(&mut out, o.as_str());
    string_of(&out)
}

} // verus!
