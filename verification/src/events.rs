//! Reading the Codex response: error messages, generated images, and the
//! server-sent event stream that carries them.
use vstd::prelude::*;
use std::collections::BTreeMap;
use vstd::std_specs::iter::IteratorSpec;
use crate::json::{
    JsonValue, JsonView, json_from_str, spec_serde_json_from_str, get, get_str, as_str, as_array,
    as_i64, models,
};
use crate::text::{
    chars_of, string_of, push_str_chars, push_all, trim, trim_chars, lines, lines_of, char_rows,
    has_prefix, starts_with, contains, contains_chars, join, views, join_strings, str_eq, chars_eq,
};

verus! {

broadcast use vstd::std_specs::vec::group_vec_axioms;

/// A spritesheet image returned by Codex, as base64-encoded PNG data.
pub struct CodexGeneratedImage {
    pub png_base64: String,
    pub revised_prompt: Option<String>,
}

/// The model of a [`CodexGeneratedImage`].
pub struct ImageView {
    pub png_base64: Seq<char>,
    pub revised_prompt: Option<Seq<char>>,
}

/// An optional string by its characters.
pub open spec fn opt_view(s: Option<String>) -> Option<Seq<char>> {
    match s {
        Some(t) => Some(t@),
        None => None,
    }
}

impl View for CodexGeneratedImage {
    type V = ImageView;

    open spec fn view(&self) -> ImageView {
        ImageView { png_base64: self.png_base64@, revised_prompt: opt_view(self.revised_prompt) }
    }
}

/// A copy of an optional string.
pub fn copy_opt_string(s: &Option<String>) -> (r: Option<String>)
    ensures
        opt_view(r) == opt_view(*s),
{
    match s {
        Some(t) => Some(t.clone()),
        None => None,
    }
}

impl CodexGeneratedImage {
    /// A copy of the image.
    pub fn copy(&self) -> (r: CodexGeneratedImage)
        ensures
            r@ == self@,
    {
        CodexGeneratedImage {
            png_base64: self.png_base64.clone(),
            revised_prompt: copy_opt_string(&self.revised_prompt),
        }
    }
}

/// The first of two options that is present.
pub open spec fn or_else<T>(a: Option<T>, b: Option<T>) -> Option<T> {
    if a is Some {
        a
    } else {
        b
    }
}

/// The message of an error object (or an error given as a bare string): its
/// `message`, else its `code`, else its `type`.
pub open spec fn error_text(e: JsonView) -> Option<Seq<char>> {
    or_else(
        as_str(e),
        or_else(get_str(e, "message"@), or_else(get_str(e, "code"@), get_str(e, "type"@))),
    )
}

/// The error message that a Codex event carries: in `error`, else in
/// `response.error`, else a top-level `message`.
pub open spec fn error_message(v: JsonView) -> Option<Seq<char>> {
    let top = match get(v, "error"@) {
        Some(e) => error_text(e),
        None => None,
    };
    let nested = match get(v, "response"@) {
        Some(r) => match get(r, "error"@) {
            Some(e) => error_text(e),
            None => None,
        },
        None => None,
    };
    or_else(top, or_else(nested, get_str(v, "message"@)))
}

fn copy_str(s: &String) -> (r: String)
    ensures
        r@ == s@,
{
    s.clone()
}

fn read_error(error: &JsonValue) -> (r: Option<String>)
    ensures
        opt_view(r) == error_text(error@),
{
    if let Some(message) = error.as_str() {
        return Some(copy_str(message));
    }
    if let Some(m) = error.get_str("message") {
        return Some(copy_str(m));
    }
    if let Some(m) = error.get_str("code") {
        return Some(copy_str(m));
    }
    match error.get_str("type") {
        Some(m) => Some(copy_str(m)),
        None => None,
    }
}

/// The error message of a Codex event, if it has one.
pub fn extract_codex_error_message(value: &JsonValue) -> (r: Option<String>)
    ensures
        opt_view(r) == error_message(value@),
{
    if let Some(e) = value.get("error") {
        if let Some(m) = read_error(e) {
            return Some(m);
        }
    }
    if let Some(resp) = value.get("response") {
        if let Some(e) = resp.get("error") {
            if let Some(m) = read_error(e) {
                return Some(m);
            }
        }
    }
    match value.get_str("message") {
        Some(m) => Some(copy_str(m)),
        None => None,
    }
}

/// The image that an output item holds: an `image_generation_call` item with a
/// non-blank `result` (or, failing that, `partial_image_b64`), trimmed.
pub open spec fn image_from_item(item: JsonView) -> Option<ImageView> {
    if get_str(item, "type"@) != Some("image_generation_call"@) {
        None
    } else {
        let raw = match or_else(get_str(item, "result"@), get_str(item, "partial_image_b64"@)) {
            Some(r) => r,
            None => Seq::empty(),
        };
        let data = trim(raw);
        if data.len() == 0 {
            None
        } else {
            Some(ImageView { png_base64: data, revised_prompt: get_str(item, "revised_prompt"@) })
        }
    }
}

/// The trimmed text of an optional string, empty when absent.
fn trimmed_or_empty(s: Option<&String>) -> (r: String)
    ensures
        r@ == trim(
            match s {
                Some(t) => t@,
                None => Seq::empty(),
            },
        ),
{
    match s {
        Some(t) => {
            let cs = chars_of(t.as_str());
            string_of(&trim_chars(&cs))
        },
        None => {
            let e: Vec<char> = Vec::new();
            assert(trim(Seq::<char>::empty()) == Seq::<char>::empty());
            string_of(&e)
        },
    }
}

fn opt_str_copy(s: Option<&String>) -> (r: Option<String>)
    ensures
        opt_view(r) == match s {
            Some(t) => Some(t@),
            None => None::<Seq<char>>,
        },
{
    match s {
        Some(t) => Some(copy_str(t)),
        None => None,
    }
}

/// The generated image in an output item, if it holds one.
pub fn extract_generated_image_from_item(item: &JsonValue) -> (r: Option<CodexGeneratedImage>)
    ensures
        match r {
            Some(img) => image_from_item(item@) == Some(img@),
            None => image_from_item(item@) is None,
        },
{
    let is_call = match item.get_str("type") {
        Some(t) => str_eq(t.as_str(), "image_generation_call"),
        None => false,
    };
    if !is_call {
        return None;
    }
    let raw = match item.get_str("result") {
        Some(r) => Some(r),
        None => item.get_str("partial_image_b64"),
    };
    let data = trimmed_or_empty(raw);
    if data.as_str().is_empty() {
        return None;
    }
    Some(
        CodexGeneratedImage {
            png_base64: data,
            revised_prompt: opt_str_copy(item.get_str("revised_prompt")),
        },
    )
}

} // verus!

verus! {

/// A left-to-right scan that may finish early with a result.
pub enum Scan<S, R> {
    Going(S),
    Done(R),
}

/// What the preview of an unusable response has gathered so far: the event
/// types seen (each once, in order), and snippets of lines that are not JSON.
pub struct PreviewState {
    pub events: Seq<Seq<char>>,
    pub snippets: Seq<Seq<char>>,
}

/// `list` with `t` added at the end unless it is already there.
pub open spec fn add_unique(list: Seq<Seq<char>>, t: Seq<char>) -> Seq<Seq<char>> {
    if list.contains(t) {
        list
    } else {
        list.push(t)
    }
}

/// The payload of a preview line: after a `data:` prefix, trimmed; else the line.
pub open spec fn preview_payload(line: Seq<char>) -> Seq<char> {
    if has_prefix(line, "data:"@) {
        trim(line.skip(5))
    } else {
        line
    }
}

/// One line of the preview scan.
pub open spec fn preview_step(st: PreviewState, raw: Seq<char>) -> Scan<PreviewState, Seq<char>> {
    let line = trim(raw);
    if line.len() == 0 || line == "data: [DONE]"@ {
        Scan::Going(st)
    } else {
        let payload = preview_payload(line);
        match spec_serde_json_from_str(payload) {
            Ok(v) => match error_message(v) {
                Some(m) => Scan::Done("Codex error event: "@ + m),
                None => Scan::Going(
                    PreviewState {
                        events: match get_str(v, "type"@) {
                            Some(t) => add_unique(st.events, t),
                            None => st.events,
                        },
                        snippets: st.snippets,
                    },
                ),
            },
            Err(_) => if contains(payload, "partial_image_b64"@) || contains(
                payload,
                "\"result\""@,
            ) {
                Scan::Going(st)
            } else {
                Scan::Going(
                    PreviewState {
                        events: st.events,
                        snippets: st.snippets.push(crate::text::take_upto(payload, 180)),
                    },
                )
            },
        }
    }
}

/// The preview scan over a list of lines.
pub open spec fn preview_scan(ls: Seq<Seq<char>>) -> Scan<PreviewState, Seq<char>>
    decreases ls.len(),
{
    if ls.len() == 0 {
        Scan::Going(PreviewState { events: seq![], snippets: seq![] })
    } else {
        match preview_scan(ls.drop_last()) {
            Scan::Done(m) => Scan::Done(m),
            Scan::Going(st) => preview_step(st, ls.last()),
        }
    }
}

/// The first `n` lines (all of them when fewer).
pub open spec fn first_lines(ls: Seq<Seq<char>>, n: nat) -> Seq<Seq<char>> {
    if ls.len() > n {
        ls.take(n as int)
    } else {
        ls
    }
}

/// A short description of a response body that held no image: the first error
/// message found in its first 80 lines, else the event types seen, else
/// snippets of its non-JSON lines, else that it was empty.
pub open spec fn body_preview(body: Seq<char>) -> Seq<char> {
    match preview_scan(first_lines(lines(body), 80)) {
        Scan::Done(m) => m,
        Scan::Going(st) => if st.events.len() > 0 {
            "seen events: "@ + join(st.events, ", "@)
        } else if st.snippets.len() > 0 {
            join(st.snippets, " | "@)
        } else {
            "empty response body"@
        },
    }
}

proof fn lemma_preview_done_stays(ls: Seq<Seq<char>>, k: int, m: Seq<char>)
    requires
        0 <= k <= ls.len(),
        preview_scan(ls.take(k)) == Scan::<PreviewState, Seq<char>>::Done(m),
    ensures
        preview_scan(ls) == Scan::<PreviewState, Seq<char>>::Done(m),
    decreases ls.len() - k,
{
    if k == ls.len() {
        assert(ls.take(k) =~= ls);
    } else {
        assert(ls.drop_last().take(k) =~= ls.take(k));
        lemma_preview_done_stays(ls.drop_last(), k, m);
    }
}

/// Whether `t` is one of `list`.
pub fn list_has(list: &Vec<String>, t: &str) -> (r: bool)
    ensures
        r == views(list@).contains(t@),
{
    let mut i: usize = 0;
    while i < list.len()
        invariant
            i <= list@.len(),
            forall|j: int| 0 <= j < i ==> list@[j]@ != t@,
        decreases list@.len() - i,
    {
        if str_eq(list[i].as_str(), t) {
            assert(views(list@)[i as int] == t@);
            return true;
        }
        i = i + 1;
    }
    assert(!views(list@).contains(t@)) by {
        if views(list@).contains(t@) {
            let j = choose|j: int| 0 <= j < views(list@).len() && views(list@)[j] == t@;
            assert(list@[j]@ == t@);
        }
    }
    false
}

/// Adds `t` to `list` unless it is already there.
pub fn push_unique(list: &mut Vec<String>, t: &str)
    ensures
        views(final(list)@) == add_unique(views(old(list)@), t@),
{
    if !list_has(list, t) {
        let ghost prev = list@;
        list.push(t.to_owned());
        assert(views(list@) =~= views(prev).push(t@));
    }
}

/// The payload of a trimmed preview line.
fn preview_payload_exec(line: &Vec<char>) -> (r: Vec<char>)
    ensures
        r@ == preview_payload(line@),
{
    let prefix = chars_of("data:");
    proof {
        reveal_strlit("data:");
    }
    if starts_with(line, &prefix) {
        let rest = crate::text::slice_chars(line, 5, line.len());
        assert(rest@ =~= line@.skip(5));
        trim_chars(&rest)
    } else {
        line.clone()
    }
}

/// The first `n` characters of `s`.
pub fn take_upto_exec(s: &Vec<char>, n: usize) -> (r: Vec<char>)
    ensures
        r@ == crate::text::take_upto(s@, n as nat),
{
    if s.len() > n {
        crate::text::slice_chars(s, 0, n)
    } else {
        s.clone()
    }
}

/// Describes a Codex response body that did not yield an image, for error
/// messages.
pub fn codex_body_preview(body: &str) -> (r: String)
    ensures
        r@ == body_preview(body@),
{
    let cs = chars_of(body);
    let ls = lines_of(&cs);
    let ghost all = char_rows(ls@);
    let n: usize = if ls.len() > 80 {
        80
    } else {
        ls.len()
    };
    let ghost first = first_lines(all, 80);
    assert(first =~= all.take(n as int));
    let mut events: Vec<String> = Vec::new();
    let mut snippets: Vec<String> = Vec::new();
    assert(views(events@) =~= Seq::<Seq<char>>::empty());
    assert(views(snippets@) =~= Seq::<Seq<char>>::empty());
    assert(first.take(0) =~= Seq::<Seq<char>>::empty());
    let mut i: usize = 0;
    while i < n
        invariant
            n <= ls@.len(),
            all == char_rows(ls@),
            first == all.take(n as int),
            first == first_lines(lines(body@), 80),
            i <= n,
            preview_scan(first.take(i as int)) == Scan::<PreviewState, Seq<char>>::Going(
                PreviewState { events: views(events@), snippets: views(snippets@) },
            ),
        decreases n - i,
    {
        let ghost st = PreviewState { events: views(events@), snippets: views(snippets@) };
        assert(first.take(i + 1).drop_last() =~= first.take(i as int));
        assert(first.take(i + 1).last() == ls@[i as int]@);
        let ghost raw = ls@[i as int]@;
        let line = trim_chars(&ls[i]);
        let done_marker = chars_of("data: [DONE]");
        i = i + 1;
        if line.len() == 0 || chars_eq(&line, &done_marker) {
            continue;
        }
        let payload = preview_payload_exec(&line);
        let payload_text = string_of(&payload);
        match json_from_str(payload_text.as_str()) {
            Ok(value) => {
                if let Some(message) = extract_codex_error_message(&value) {
                    let mut out: Vec<char> = Vec::new();
                    push_str_chars(&mut out, "Codex error event: ");
                    push_str_chars(&mut out, message.as_str());
                    assert(out@ =~= "Codex error event: "@ + message@);
                    assert(spec_serde_json_from_str(payload@) == Ok::<JsonView, Seq<char>>(value@));
                    assert(preview_step(st, raw) == Scan::<PreviewState, Seq<char>>::Done(out@));
                    assert(preview_scan(first.take(i as int)) == preview_step(st, raw));
                    proof {
                        lemma_preview_done_stays(first, i as int, out@);
                    }
                    return string_of(&out);
                }
                if let Some(t) = value.get_str("type") {
                    push_unique(&mut events, t.as_str());
                }
            },
            Err(_) => {
                let key1 = chars_of("partial_image_b64");
                let key2 = chars_of("\"result\"");
                if !contains_chars(&payload, &key1) && !contains_chars(&payload, &key2) {
                    let snippet = take_upto_exec(&payload, 180);
                    let ghost prev = snippets@;
                    snippets.push(string_of(&snippet));
                    assert(views(snippets@) =~= views(prev).push(snippet@));
                }
            },
        }
    }
    assert(first.take(n as int) =~= first);
    let mut out: Vec<char> = Vec::new();
    if events.len() > 0 {
        push_str_chars(&mut out, "seen events: ");
        let joined = join_strings(&events, ", ");
        push_all(&mut out, &joined);
    } else if snippets.len() > 0 {
        let joined = join_strings(&snippets, " | ");
        push_all(&mut out, &joined);
    } else {
        push_str_chars(&mut out, "empty response body");
    }
    string_of(&out)
}

} // verus!

verus! {

/// The smallest key of a map.
pub open spec fn min_key(m: Map<i64, ImageView>) -> i64 {
    choose|k: i64| m.dom().contains(k) && forall|j: i64| m.dom().contains(j) ==> k <= j
}

/// The partial images received so far, by output index, by their models.
pub open spec fn partial_view(m: Map<i64, CodexGeneratedImage>) -> Map<i64, ImageView> {
    Map::new(|k: i64| m.dom().contains(k), |k: i64| m[k]@)
}

/// The image stored under the smallest key: the first of
/// `BTreeMap::values()`, which yields the values in increasing key order.
fn first_partial(partial: &BTreeMap<i64, CodexGeneratedImage>) -> (r: Option<CodexGeneratedImage>)
    ensures
        ({
            let m = partial_view(partial@);
            match r {
                Some(img) => m.dom() != Set::<i64>::empty() && img@ == m[min_key(m)],
                None => m.dom() == Set::<i64>::empty(),
            }
        }),
{
    proof {
        assert(vstd::laws_cmp::obeys_cmp::<i64>());
        assert(vstd::std_specs::btree::key_obeys_cmp_spec::<i64>());
    }
    let values = partial.values();
    let ghost keys = choose|key_seq: Seq<i64>|
        {
            &&& vstd::std_specs::btree::increasing_seq(key_seq)
            &&& key_seq.to_set() == partial@.dom()
            &&& key_seq.no_duplicates()
            &&& values.remaining() == key_seq.map(|i: int, k: i64| &partial@[k])
        };
    let ghost items = values.remaining();
    let ghost m = partial_view(partial@);
    for img in it: values
        invariant
            it.seq() == items,
            it.index() == 0,
            items == keys.map(|i: int, k: i64| &partial@[k]),
            keys.to_set() == partial@.dom(),
            vstd::std_specs::btree::increasing_seq(keys),
            m == partial_view(partial@),
    {
        proof {
            assert(vstd::laws_cmp::obeys_cmp::<i64>());
            let k0 = keys[0];
            assert(img == items[0]);
            assert(keys.to_set().contains(k0));
            assert(m.dom().contains(k0));
            assert forall|j: i64| m.dom().contains(j) implies k0 <= j by {
                assert(keys.to_set().contains(j));
                let t = choose|t: int| 0 <= t < keys.len() && keys[t] == j;
                if t > 0 {
                    assert(vstd::std_specs::cmp::OrdSpec::cmp_spec(&keys[0], &keys[t]) is Less);
                    assert(keys[0] < keys[t]);
                }
            }
            let k = min_key(m);
            assert(m.dom().contains(k) && k <= k0);
        }
        return Some(img.copy());
    }
    proof {
        assert(keys.len() == 0);
        assert(keys.to_set() =~= Set::<i64>::empty());
        assert(m.dom() =~= Set::<i64>::empty());
    }
    None
}

} // verus!

verus! {

/// `s` with every leading repetition of `p` removed (`str::trim_start_matches`).
pub open spec fn strip_prefixes(s: Seq<char>, p: Seq<char>) -> Seq<char>
    decreases s.len(),
{
    if p.len() > 0 && has_prefix(s, p) {
        strip_prefixes(s.skip(p.len() as int), p)
    } else {
        s
    }
}

/// The first item of a list that holds a generated image.
pub open spec fn first_image(items: Seq<JsonView>) -> Option<ImageView>
    decreases items.len(),
{
    if items.len() == 0 {
        None
    } else {
        match image_from_item(items[0]) {
            Some(img) => Some(img),
            None => first_image(items.drop_first()),
        }
    }
}

/// The message for a generation that Codex reported as failed.
pub open spec fn failure_message(detail: Seq<char>) -> Seq<char> {
    "Codex failed to generate the spritesheet: "@ + detail
}

/// What the event-stream reader keeps between lines: the partial images by
/// output index, and the event types seen (each once, in order).
pub struct SseState {
    pub partial: Map<i64, ImageView>,
    pub seen: Seq<Seq<char>>,
}

/// The image of a `response.completed` event: the first image among the
/// response's output items, else the partial image with the smallest index.
pub open spec fn completed_image(v: JsonView, partial: Map<i64, ImageView>) -> Option<ImageView> {
    let outputs = match get(v, "response"@) {
        Some(r) => match get(r, "output"@) {
            Some(o) => as_array(o),
            None => None,
        },
        None => None,
    };
    let from_outputs = match outputs {
        Some(items) => first_image(items),
        None => None,
    };
    if from_outputs is Some {
        from_outputs
    } else if partial.dom() != Set::<i64>::empty() {
        Some(partial[min_key(partial)])
    } else {
        None
    }
}

/// One event of the stream, already parsed, with its type `et`.
pub open spec fn sse_event(st: SseState, v: JsonView, et: Seq<char>) -> Scan<
    SseState,
    Result<ImageView, Seq<char>>,
> {
    let seen = if et.len() > 0 {
        add_unique(st.seen, et)
    } else {
        st.seen
    };
    let st2 = SseState { partial: st.partial, seen };
    if et == "response.failed"@ || et == "error"@ {
        Scan::Done(
            Err(
                failure_message(
                    match error_message(v) {
                        Some(m) => m,
                        None => "unknown error"@,
                    },
                ),
            ),
        )
    } else if et == "response.image_generation_call.partial_image"@ {
        let data = trim(
            match get_str(v, "partial_image_b64"@) {
                Some(d) => d,
                None => Seq::empty(),
            },
        );
        if data.len() == 0 {
            Scan::Going(st2)
        } else {
            let index = match get(v, "output_index"@) {
                Some(n) => match as_i64(n) {
                    Some(x) => x,
                    None => 0,
                },
                None => 0,
            };
            let img = ImageView { png_base64: data, revised_prompt: get_str(v, "revised_prompt"@) };
            Scan::Going(SseState { partial: st.partial.insert(index, img), seen })
        }
    } else if et == "response.output_item.done"@ {
        match get(v, "item"@) {
            Some(item) => match image_from_item(item) {
                Some(img) => Scan::Done(Ok(img)),
                None => Scan::Going(st2),
            },
            None => Scan::Going(st2),
        }
    } else if et == "response.completed"@ {
        match error_message(v) {
            Some(m) => Scan::Done(Err(failure_message(m))),
            None => match completed_image(v, st.partial) {
                Some(img) => Scan::Done(Ok(img)),
                None => Scan::Going(st2),
            },
        }
    } else {
        Scan::Going(st2)
    }
}

/// The payload of a stream line: what follows its `data:` prefixes, trimmed.
pub open spec fn sse_payload(line: Seq<char>) -> Seq<char> {
    trim(strip_prefixes(line, "data:"@))
}

/// One line of the event stream. Lines that do not start with `data:` and
/// empty or `[DONE]` payloads are skipped; a payload that is not JSON ends the
/// stream with an error.
pub open spec fn sse_step(st: SseState, raw: Seq<char>) -> Scan<
    SseState,
    Result<ImageView, Seq<char>>,
> {
    let line = trim(raw);
    if !has_prefix(line, "data:"@) {
        Scan::Going(st)
    } else {
        let payload = sse_payload(line);
        if payload.len() == 0 || payload == "[DONE]"@ {
            Scan::Going(st)
        } else {
            match spec_serde_json_from_str(payload) {
                Err(e) => Scan::Done(Err("Failed to parse Codex event stream: "@ + e)),
                Ok(v) => sse_event(
                    st,
                    v,
                    match get_str(v, "type"@) {
                        Some(t) => t,
                        None => Seq::empty(),
                    },
                ),
            }
        }
    }
}

/// The event-stream scan over a list of lines.
pub open spec fn sse_scan(ls: Seq<Seq<char>>) -> Scan<SseState, Result<ImageView, Seq<char>>>
    decreases ls.len(),
{
    if ls.len() == 0 {
        Scan::Going(SseState { partial: Map::empty(), seen: seq![] })
    } else {
        match sse_scan(ls.drop_last()) {
            Scan::Done(r) => Scan::Done(r),
            Scan::Going(st) => sse_step(st, ls.last()),
        }
    }
}

/// What reading a Codex event stream gives: the image or error that ends the
/// scan, else an error naming the event types seen (or describing the body
/// when none was seen).
pub open spec fn sse_result(body: Seq<char>) -> Result<ImageView, Seq<char>> {
    match sse_scan(lines(body)) {
        Scan::Done(r) => r,
        Scan::Going(st) => Err(
            "Codex did not return a spritesheet image ("@ + (if st.seen.len() == 0 {
                body_preview(body)
            } else {
                "seen events: "@ + join(st.seen, ", "@)
            }) + ")."@,
        ),
    }
}

/// A result by its model.
pub open spec fn image_result(r: Result<CodexGeneratedImage, String>) -> Result<
    ImageView,
    Seq<char>,
> {
    match r {
        Ok(img) => Ok(img@),
        Err(e) => Err(e@),
    }
}

proof fn lemma_sse_done_stays(ls: Seq<Seq<char>>, k: int, r: Result<ImageView, Seq<char>>)
    requires
        0 <= k <= ls.len(),
        sse_scan(ls.take(k)) == Scan::<SseState, Result<ImageView, Seq<char>>>::Done(r),
    ensures
        sse_scan(ls) == Scan::<SseState, Result<ImageView, Seq<char>>>::Done(r),
    decreases ls.len() - k,
{
    if k == ls.len() {
        assert(ls.take(k) =~= ls);
    } else {
        assert(ls.drop_last().take(k) =~= ls.take(k));
        lemma_sse_done_stays(ls.drop_last(), k, r);
    }
}

/// `line.trim_start_matches("data:")`.
fn strip_data_prefixes(line: &Vec<char>) -> (r: Vec<char>)
    ensures
        r@ == strip_prefixes(line@, "data:"@),
{
    let p = chars_of("data:");
    proof {
        reveal_strlit("data:");
    }
    let mut pos: usize = 0;
    assert(line@.skip(0) =~= line@);
    while line.len() >= 5 && pos <= line.len() - 5 && crate::text::matches_at(line, &p, pos)
        invariant
            p@ == "data:"@,
            p@.len() == 5,
            pos <= line@.len(),
            strip_prefixes(line@, "data:"@) == strip_prefixes(line@.skip(pos as int), "data:"@),
        decreases line@.len() - pos,
    {
        assert(line@.skip(pos as int).take(5) =~= line@.subrange(pos as int, pos + 5));
        assert(line@.skip(pos as int).skip(5) =~= line@.skip(pos + 5));
        pos = pos + 5;
    }
    proof {
        if pos + 5 <= line@.len() {
            assert(line@.skip(pos as int).take(5) =~= line@.subrange(pos as int, pos + 5));
        }
    }
    let r = crate::text::slice_chars(line, pos, line.len());
    assert(r@ =~= line@.skip(pos as int));
    r
}

/// The exec state of the event-stream reader.
struct SseProgress {
    partial: BTreeMap<i64, CodexGeneratedImage>,
    seen: Vec<String>,
}

impl SseProgress {
    spec fn model(&self) -> SseState {
        SseState { partial: partial_view(self.partial@), seen: views(self.seen@) }
    }
}

/// The first output item that holds an image.
fn first_image_exec(items: &Vec<JsonValue>) -> (r: Option<CodexGeneratedImage>)
    ensures
        match r {
            Some(img) => first_image(models(items@)) == Some(img@),
            None => first_image(models(items@)) is None,
        },
{
    let ghost ms = models(items@);
    let mut i: usize = 0;
    assert(ms.skip(0) =~= ms);
    while i < items.len()
        invariant
            ms == models(items@),
            i <= items@.len(),
            first_image(ms) == first_image(ms.skip(i as int)),
        decreases items@.len() - i,
    {
        assert(ms.skip(i as int)[0] == items@[i as int]@);
        assert(ms.skip(i as int).drop_first() =~= ms.skip(i + 1));
        if let Some(img) = extract_generated_image_from_item(&items[i]) {
            return Some(img);
        }
        i = i + 1;
    }
    assert(ms.skip(i as int) =~= Seq::<JsonView>::empty());
    None
}

/// The image of a `response.completed` event.
fn completed_image_exec(value: &JsonValue, partial: &BTreeMap<i64, CodexGeneratedImage>) -> (r: Option<
    CodexGeneratedImage,
>)
    ensures
        match r {
            Some(img) => completed_image(value@, partial_view(partial@)) == Some(
                img@,
            ),
            None => completed_image(value@, partial_view(partial@)) is None,
        },
{
    let outputs = match value.get("response") {
        Some(resp) => match resp.get("output") {
            Some(o) => o.as_array(),
            None => None,
        },
        None => None,
    };
    if let Some(items) = outputs {
        if let Some(img) = first_image_exec(items) {
            return Some(img);
        }
    }
    first_partial(partial)
}

/// `message` prefixed by `prefix`.
fn prefixed(prefix: &str, message: &str) -> (r: String)
    ensures
        r@ == prefix@ + message@,
{
    let mut out: Vec<char> = Vec::new();
    push_str_chars(&mut out, prefix);
    push_str_chars(&mut out, message);
    assert(out@ =~= prefix@ + message@);
    string_of(&out)
}

/// `a + b + c` as a string.
pub fn concat3(a: &str, b: &str, c: &str) -> (r: String)
    ensures
        r@ == a@ + b@ + c@,
{
    let mut out: Vec<char> = Vec::new();
    push_str_chars(&mut out, a);
    push_str_chars(&mut out, b);
    push_str_chars(&mut out, c);
    string_of(&out)
}

/// Handles one parsed event.
fn sse_event_exec(st: &mut SseProgress, value: &JsonValue, et: &str) -> (r: Option<
    Result<CodexGeneratedImage, String>,
>)
    ensures
        match r {
            Some(res) => sse_event(old(st).model(), value@, et@) == Scan::<
                SseState,
                Result<ImageView, Seq<char>>,
            >::Done(image_result(res)),
            None => sse_event(old(st).model(), value@, et@) == Scan::<
                SseState,
                Result<ImageView, Seq<char>>,
            >::Going(final(st).model()),
        },
{
    let ghost st0 = st.model();
    let ghost seen1 = if et@.len() > 0 {
        add_unique(st0.seen, et@)
    } else {
        st0.seen
    };
    if !et.is_empty() {
        push_unique(&mut st.seen, et);
    }
    assert(views(st.seen@) == seen1);
    if str_eq(et, "response.failed") || str_eq(et, "error") {
        let detail = match extract_codex_error_message(value) {
            Some(m) => m,
            None => "unknown error".to_owned(),
        };
        return Some(Err(prefixed("Codex failed to generate the spritesheet: ", detail.as_str())));
    }
    if str_eq(et, "response.image_generation_call.partial_image") {
        let data = trimmed_or_empty(value.get_str("partial_image_b64"));
        if data.as_str().is_empty() {
            return None;
        }
        let index: i64 = match value.get("output_index") {
            Some(n) => match n.as_i64() {
                Some(x) => x,
                None => 0,
            },
            None => 0,
        };
        let img = CodexGeneratedImage {
            png_base64: data,
            revised_prompt: opt_str_copy(value.get_str("revised_prompt")),
        };
        let ghost prev = st.partial@;
        let ghost iv = img@;
        proof {
            assert(vstd::laws_cmp::obeys_cmp::<i64>());
        }
        st.partial.insert(index, img);
        assert(partial_view(st.partial@) =~= partial_view(prev).insert(index, iv));
        return None;
    }
    if str_eq(et, "response.output_item.done") {
        if let Some(item) = value.get("item") {
            if let Some(img) = extract_generated_image_from_item(item) {
                return Some(Ok(img));
            }
        }
        return None;
    }
    if str_eq(et, "response.completed") {
        if let Some(m) = extract_codex_error_message(value) {
            return Some(Err(prefixed("Codex failed to generate the spritesheet: ", m.as_str())));
        }
        if let Some(img) = completed_image_exec(value, &st.partial) {
            return Some(Ok(img));
        }
        return None;
    }
    None
}

/// Handles one line of the stream.
fn sse_line_exec(st: &mut SseProgress, raw: &Vec<char>) -> (r: Option<
    Result<CodexGeneratedImage, String>,
>)
    ensures
        match r {
            Some(res) => sse_step(old(st).model(), raw@) == Scan::<
                SseState,
                Result<ImageView, Seq<char>>,
            >::Done(image_result(res)),
            None => sse_step(old(st).model(), raw@) == Scan::<
                SseState,
                Result<ImageView, Seq<char>>,
            >::Going(final(st).model()),
        },
{
    let line = trim_chars(raw);
    let p = chars_of("data:");
    if !starts_with(&line, &p) {
        return None;
    }
    let stripped = strip_data_prefixes(&line);
    let payload = trim_chars(&stripped);
    let done_marker = chars_of("[DONE]");
    if payload.len() == 0 || chars_eq(&payload, &done_marker) {
        return None;
    }
    let payload_text = string_of(&payload);
    assert(payload@ == sse_payload(line@));
    match json_from_str(payload_text.as_str()) {
        Err(e) => Some(Err(prefixed("Failed to parse Codex event stream: ", e.as_str()))),
        Ok(value) => {
            let et: &str = match value.get_str("type") {
                Some(t) => t.as_str(),
                None => "",
            };
            proof {
                reveal_strlit("");
            }
            assert(et@ == match get_str(value@, "type"@) {
                Some(t) => t,
                None => Seq::<char>::empty(),
            });
            assert(spec_serde_json_from_str(payload@) == Ok::<JsonView, Seq<char>>(value@));
            sse_event_exec(st, &value, et)
        },
    }
}

/// Reads the text of a Codex server-sent event stream and returns the
/// generated spritesheet image.
pub fn parse_codex_sse_text(body: &str) -> (r: Result<CodexGeneratedImage, String>)
    ensures
        image_result(r) == sse_result(body@),
{
    let cs = chars_of(body);
    let ls = lines_of(&cs);
    let ghost all = char_rows(ls@);
    let mut st = SseProgress { partial: BTreeMap::new(), seen: Vec::new() };
    assert(partial_view(st.partial@) =~= Map::<i64, ImageView>::empty());
    assert(views(st.seen@) =~= Seq::<Seq<char>>::empty());
    assert(all.take(0) =~= Seq::<Seq<char>>::empty());
    let mut i: usize = 0;
    while i < ls.len()
        invariant
            all == char_rows(ls@),
            all == lines(body@),
            i <= ls@.len(),
            sse_scan(all.take(i as int)) == Scan::<SseState, Result<ImageView, Seq<char>>>::Going(
                st.model(),
            ),
        decreases ls@.len() - i,
    {
        assert(all.take(i + 1).drop_last() =~= all.take(i as int));
        assert(all.take(i + 1).last() == ls@[i as int]@);
        let step = sse_line_exec(&mut st, &ls[i]);
        i = i + 1;
        if let Some(res) = step {
            proof {
                lemma_sse_done_stays(all, i as int, image_result(res));
            }
            return res;
        }
    }
    assert(all.take(ls@.len() as int) =~= all);
    let details: String = if st.seen.len() == 0 {
        codex_body_preview(body)
    } else {
        let mut out: Vec<char> = Vec::new();
        push_str_chars(&mut out, "seen events: ");
        let joined = join_strings(&st.seen, ", ");
        push_all(&mut out, &joined);
        string_of(&out)
    };
    let mut msg: Vec<char> = Vec::new();
    push_str_chars(&mut msg, "Codex did not return a spritesheet image (");
    push_str_chars(&mut msg, details.as_str());
    push_str_chars(&mut msg, ").");
    Err(string_of(&msg))
}

} // verus!

verus! {

/// The messages of `s` in order, each kept at its first occurrence only.
pub open spec fn unique_in_order(s: Seq<Seq<char>>) -> Seq<Seq<char>>
    decreases s.len(),
{
    if s.len() == 0 {
        seq![]
    } else {
        add_unique(unique_in_order(s.drop_last()), s.last())
    }
}

/// An error and its chain of sources as one line: the messages, from the error
/// itself down its `source()` chain, each repeated message left out, joined
/// by `": "`. `messages[0]` is the error's own message.
pub fn format_error_chain(messages: &Vec<String>) -> (r: String)
    ensures
        r@ == join(unique_in_order(views(messages@)), ": "@),
{
    let ghost ms = views(messages@);
    let mut parts: Vec<String> = Vec::new();
    let mut i: usize = 0;
    assert(ms.take(0) =~= Seq::<Seq<char>>::empty());
    assert(views(parts@) =~= Seq::<Seq<char>>::empty());
    while i < messages.len()
        invariant
            ms == views(messages@),
            i <= messages@.len(),
            views(parts@) == unique_in_order(ms.take(i as int)),
        decreases messages@.len() - i,
    {
        assert(ms.take(i + 1).drop_last() =~= ms.take(i as int));
        push_unique(&mut parts, messages[i].as_str());
        i = i + 1;
    }
    assert(ms.take(messages@.len() as int) =~= ms);
    let joined = join_strings(&parts, ": ");
    string_of(&joined)
}

/// Whether an HTTP status code is a success (`200..=299`).
pub open spec fn is_success(status: u16) -> bool {
    200 <= status <= 299
}

/// What a streamed Codex response gives: an error with the body for a failed
/// status; otherwise the image read from the body; when reading the body
/// failed (its error chain given), an error that says so, with what the
/// partial body shows.
pub open spec fn stream_response_result(
    status: u16,
    body: Seq<char>,
    read_error: Option<Seq<Seq<char>>>,
) -> Result<ImageView, Seq<char>> {
    if !is_success(status) {
        Err(
            "Codex image generation failed with status "@ + crate::text::decimal(status as nat)
                + ": "@ + body,
        )
    } else {
        match read_error {
            None => sse_result(body),
            Some(chain) => {
                let described = join(unique_in_order(chain), ": "@);
                if crate::text::is_blank(body) {
                    Err("Failed to read Codex response: "@ + described)
                } else {
                    match sse_result(body) {
                        Ok(img) => Ok(img),
                        Err(pe) => Err(
                            "Failed to read full Codex response: "@ + described
                                + "; partial response parse failed: "@ + pe + "; "@
                                + body_preview(body),
                        ),
                    }
                }
            },
        }
    }
}

/// Turns a streamed Codex response into the generated image. `status` is the
/// HTTP status; `body` the response text (for a failed status, its text as
/// far as it could be read); `read_error` the error chain when reading the
/// body of a successful response failed part way.
pub fn parse_codex_stream_response(
    status: u16,
    body: &str,
    read_error: Option<&Vec<String>>,
) -> (r: Result<CodexGeneratedImage, String>)
    ensures
        image_result(r) == stream_response_result(
            status,
            body@,
            match read_error {
                Some(c) => Some(views(c@)),
                None => None,
            },
        ),
{
    if !(200 <= status && status <= 299) {
        let mut out: Vec<char> = Vec::new();
        push_str_chars(&mut out, "Codex image generation failed with status ");
        crate::text::push_decimal(&mut out, status as u128);
        push_str_chars(&mut out, ": ");
        push_str_chars(&mut out, body);
        return Err(string_of(&out));
    }
    match read_error {
        None => parse_codex_sse_text(body),
        Some(chain) => {
            let described = format_error_chain(chain);
            if crate::text::str_is_blank(body) {
                return Err(prefixed("Failed to read Codex response: ", described.as_str()));
            }
            match parse_codex_sse_text(body) {
                Ok(img) => Ok(img),
                Err(pe) => {
                    let mut out: Vec<char> = Vec::new();
                    push_str_chars(&mut out, "Failed to read full Codex response: ");
                    push_str_chars(&mut out, described.as_str());
                    push_str_chars(&mut out, "; partial response parse failed: ");
                    push_str_chars(&mut out, pe.as_str());
                    push_str_chars(&mut out, "; ");
                    let preview = codex_body_preview(body);
                    push_str_chars(&mut out, preview.as_str());
                    Err(string_of(&out))
                },
            }
        },
    }
}

} // verus!

verus! {

/// Once the event stream has produced its result, the lines after it do not
/// change it.
pub proof fn law_sse_ignores_later_lines(
    ls: Seq<Seq<char>>,
    later: Seq<Seq<char>>,
    r: Result<ImageView, Seq<char>>,
)
    requires
        sse_scan(ls) == Scan::<SseState, Result<ImageView, Seq<char>>>::Done(r),
    ensures
        sse_scan(ls + later) == Scan::<SseState, Result<ImageView, Seq<char>>>::Done(r),
{
    assert((ls + later).take(ls.len() as int) =~= ls);
    lemma_sse_done_stays(ls + later, ls.len() as int, r);
}

/// A `response.output_item.done` event ends the stream with the image of
/// its item when the item holds one; an item without an image (or no item)
/// is passed over: the scan goes on, with the partial images as they were
/// and the event type noted as seen.
pub proof fn law_output_item_without_image_is_skipped(st: SseState, v: JsonView)
    ensures
        match get(v, "item"@) {
            Some(item) => match image_from_item(item) {
                Some(img) => sse_event(st, v, "response.output_item.done"@) == Scan::<
                    SseState,
                    Result<ImageView, Seq<char>>,
                >::Done(Ok(img)),
                None => sse_event(st, v, "response.output_item.done"@) == Scan::<
                    SseState,
                    Result<ImageView, Seq<char>>,
                >::Going(
                    SseState {
                        partial: st.partial,
                        seen: add_unique(st.seen, "response.output_item.done"@),
                    },
                ),
            },
            None => sse_event(st, v, "response.output_item.done"@) == Scan::<
                SseState,
                Result<ImageView, Seq<char>>,
            >::Going(
                SseState {
                    partial: st.partial,
                    seen: add_unique(st.seen, "response.output_item.done"@),
                },
            ),
        },
{
    reveal_strlit("response.output_item.done");
    reveal_strlit("response.failed");
    reveal_strlit("error");
    reveal_strlit("response.image_generation_call.partial_image");
    let et = "response.output_item.done"@;
    assert(et != "response.failed"@ && et != "error"@) by {
        assert(et.len() != "response.failed"@.len());
        assert(et.len() != "error"@.len());
    }
    assert(et != "response.image_generation_call.partial_image"@) by {
        assert(et.len() != "response.image_generation_call.partial_image"@.len());
    }
}

/// A `response.failed` or `error` event ends the stream with an error that
/// gives the event's message (or "unknown error") after "Codex failed to
/// generate the spritesheet: ".
pub proof fn law_failure_events_end_the_stream(st: SseState, v: JsonView)
    ensures
        ({
            let expected = Scan::<SseState, Result<ImageView, Seq<char>>>::Done(
                Err(
                    "Codex failed to generate the spritesheet: "@ + match error_message(v) {
                        Some(m) => m,
                        None => "unknown error"@,
                    },
                ),
            );
            &&& sse_event(st, v, "response.failed"@) == expected
            &&& sse_event(st, v, "error"@) == expected
        }),
{
}

/// A partial image with data is kept under its output index (0 when the
/// event has none), replacing an earlier one with that index, and the stream
/// goes on; one whose data is blank is passed over.
pub proof fn law_partial_images_are_kept_by_index(st: SseState, v: JsonView)
    ensures
        ({
            let et = "response.image_generation_call.partial_image"@;
            let data = trim(
                match get_str(v, "partial_image_b64"@) {
                    Some(d) => d,
                    None => Seq::empty(),
                },
            );
            let index = match get(v, "output_index"@) {
                Some(n) => match as_i64(n) {
                    Some(x) => x,
                    None => 0,
                },
                None => 0,
            };
            match sse_event(st, v, et) {
                Scan::Going(next) => {
                    &&& next.seen == add_unique(st.seen, et)
                    &&& data.len() == 0 ==> next.partial == st.partial
                    &&& data.len() > 0 ==> next.partial == st.partial.insert(
                        index,
                        ImageView { png_base64: data, revised_prompt: get_str(v, "revised_prompt"@) },
                    )
                },
                Scan::Done(_) => false,
            }
        }),
{
    reveal_strlit("response.image_generation_call.partial_image");
    reveal_strlit("response.failed");
    reveal_strlit("error");
    let et = "response.image_generation_call.partial_image"@;
    assert(et != "response.failed"@ && et != "error"@) by {
        assert(et.len() != "response.failed"@.len());
        assert(et.len() != "error"@.len());
    }
}

/// A finite, non-empty set of indices has a smallest one.
proof fn lemma_smallest_index(keys: Set<i64>)
    requires
        keys.finite(),
        keys.len() > 0,
    ensures
        exists|k: i64| keys.contains(k) && forall|j: i64| keys.contains(j) ==> k <= j,
{
    let leq = |a: i64, b: i64| a <= b;
    assert(vstd::relations::total_ordering(leq)) by {
        reveal(vstd::relations::reflexive);
        reveal(vstd::relations::antisymmetric);
        reveal(vstd::relations::transitive);
        reveal(vstd::relations::strongly_connected);
    }
    keys.find_unique_minimal_ensures(leq);
    let m = keys.find_unique_minimal(leq);
    assert(vstd::relations::is_minimal(leq, m, keys));
    assert forall|j: i64| keys.contains(j) implies m <= j by {
        if j < m {
            assert(leq(j, m));
            assert(leq(m, j));
        }
    }
    assert(keys.contains(m));
}

/// A `response.completed` event that carries an error ends the stream with
/// it; otherwise it ends the stream with the first image among the
/// response's output items, else with the partial image of the smallest
/// output index; with neither, the stream goes on.
pub proof fn law_completed_event(st: SseState, v: JsonView)
    requires
        st.partial.dom().finite(),
    ensures
        ({
            let et = "response.completed"@;
            let from_outputs = match get(v, "response"@) {
                Some(r) => match get(r, "output"@) {
                    Some(o) => match as_array(o) {
                        Some(items) => first_image(items),
                        None => None,
                    },
                    None => None,
                },
                None => None,
            };
            &&& error_message(v) matches Some(m) ==> sse_event(st, v, et) == Scan::<
                SseState,
                Result<ImageView, Seq<char>>,
            >::Done(Err("Codex failed to generate the spritesheet: "@ + m))
            &&& error_message(v) is None && from_outputs is Some ==> sse_event(st, v, et) == Scan::<
                SseState,
                Result<ImageView, Seq<char>>,
            >::Done(Ok(from_outputs->Some_0))
            &&& error_message(v) is None && from_outputs is None && st.partial.dom().len() > 0
                ==> exists|k: i64|
                {
                    &&& st.partial.dom().contains(k)
                    &&& forall|j: i64| st.partial.dom().contains(j) ==> k <= j
                    &&& sse_event(st, v, et) == Scan::<SseState, Result<ImageView, Seq<char>>>::Done(
                        Ok(st.partial[k]),
                    )
                }
            &&& error_message(v) is None && from_outputs is None && st.partial.dom().len() == 0
                ==> sse_event(st, v, et) is Going
        }),
{
    reveal_strlit("response.completed");
    reveal_strlit("response.failed");
    reveal_strlit("error");
    reveal_strlit("response.image_generation_call.partial_image");
    reveal_strlit("response.output_item.done");
    let et = "response.completed"@;
    assert(et != "response.failed"@ && et != "error"@ && et
        != "response.image_generation_call.partial_image"@ && et
        != "response.output_item.done"@) by {
        assert(et.len() != "response.failed"@.len());
        assert(et.len() != "error"@.len());
        assert(et.len() != "response.image_generation_call.partial_image"@.len());
        assert(et.len() != "response.output_item.done"@.len());
    }
    let keys = st.partial.dom();
    if keys.len() > 0 {
        lemma_smallest_index(keys);
        let k = min_key(st.partial);
        assert(keys.contains(k) && forall|j: i64| keys.contains(j) ==> k <= j);
        assert(keys != Set::<i64>::empty());
    } else {
        assert(keys =~= Set::<i64>::empty());
    }
}

/// An output item holds an image only when its type is
/// `image_generation_call`; its image is its `result`, trimmed, when that is
/// not blank, else its trimmed `partial_image_b64` when there is no
/// `result`, with the item's revised prompt.
pub proof fn law_image_items(item: JsonView)
    ensures
        get_str(item, "type"@) != Some("image_generation_call"@) ==> image_from_item(item) is None,
        get_str(item, "type"@) == Some("image_generation_call"@) ==> match get_str(
            item,
            "result"@,
        ) {
            Some(r) => if trim(r).len() > 0 {
                image_from_item(item) == Some(
                    ImageView { png_base64: trim(r), revised_prompt: get_str(item, "revised_prompt"@) },
                )
            } else {
                image_from_item(item) is None
            },
            None => match get_str(item, "partial_image_b64"@) {
                Some(p) => if trim(p).len() > 0 {
                    image_from_item(item) == Some(
                        ImageView {
                            png_base64: trim(p),
                            revised_prompt: get_str(item, "revised_prompt"@),
                        },
                    )
                } else {
                    image_from_item(item) is None
                },
                None => image_from_item(item) is None,
            },
        },
{
}

/// An event's error message comes from its `error` member first: when that is
/// an object with a `message`, the message is the event's error message; an
/// event with no `error`, no `response.error` and no `message` carries none.
pub proof fn law_error_message_sources(v: JsonView)
    ensures
        (match get(v, "error"@) {
            Some(e) => as_str(e) is None && get_str(e, "message"@) is Some,
            None => false,
        }) ==> error_message(v) == get_str(get(v, "error"@)->Some_0, "message"@),
        get(v, "error"@) is None && get_str(v, "message"@) is None && (match get(v, "response"@) {
            Some(r) => get(r, "error"@) is None,
            None => true,
        }) ==> error_message(v) is None,
{
}

/// Whether the stream reader skips a line: once trimmed, it does not start
/// with `data:`, or what follows its `data:` prefixes is empty or `[DONE]`.
pub open spec fn sse_line_skipped(raw: Seq<char>) -> bool {
    let line = trim(raw);
    !has_prefix(line, "data:"@) || sse_payload(line).len() == 0 || sse_payload(line) == "[DONE]"@
}

/// The lines of a stream that the reader does not skip, in their order.
pub open spec fn sse_kept_lines(ls: Seq<Seq<char>>) -> Seq<Seq<char>>
    decreases ls.len(),
{
    if ls.len() == 0 {
        ls
    } else if sse_line_skipped(ls.last()) {
        sse_kept_lines(ls.drop_last())
    } else {
        sse_kept_lines(ls.drop_last()).push(ls.last())
    }
}

/// The lines kept from two lists put together are those kept from each.
pub proof fn lemma_sse_kept_lines_concat(a: Seq<Seq<char>>, b: Seq<Seq<char>>)
    ensures
        sse_kept_lines(a + b) == sse_kept_lines(a) + sse_kept_lines(b),
    decreases b.len(),
{
    if b.len() == 0 {
        assert(a + b =~= a);
        assert(sse_kept_lines(a) + sse_kept_lines(b) =~= sse_kept_lines(a));
    } else {
        assert((a + b).drop_last() =~= a + b.drop_last());
        assert((a + b).last() == b.last());
        lemma_sse_kept_lines_concat(a, b.drop_last());
        if !sse_line_skipped(b.last()) {
            assert((sse_kept_lines(a) + sse_kept_lines(b.drop_last())).push(b.last())
                =~= sse_kept_lines(a) + sse_kept_lines(b.drop_last()).push(b.last()));
        }
    }
}

/// Of lines that are all skipped, none is kept.
pub proof fn lemma_sse_kept_lines_all_skipped(ls: Seq<Seq<char>>)
    requires
        forall|i: int| 0 <= i < ls.len() ==> sse_line_skipped(#[trigger] ls[i]),
    ensures
        sse_kept_lines(ls) == Seq::<Seq<char>>::empty(),
    decreases ls.len(),
{
    if ls.len() > 0 {
        assert(sse_line_skipped(ls[ls.len() - 1]));
        assert forall|i: int| 0 <= i < ls.drop_last().len() implies sse_line_skipped(
            #[trigger] ls.drop_last()[i],
        ) by {
            assert(ls.drop_last()[i] == ls[i]);
        }
        lemma_sse_kept_lines_all_skipped(ls.drop_last());
    }
}

/// The event-stream scan reads only the lines it does not skip: scanning all
/// the lines gives what scanning the kept ones gives.
pub proof fn law_sse_scan_reads_only_kept_lines(ls: Seq<Seq<char>>)
    ensures
        sse_scan(ls) == sse_scan(sse_kept_lines(ls)),
    decreases ls.len(),
{
    if ls.len() > 0 {
        law_sse_scan_reads_only_kept_lines(ls.drop_last());
        let k = sse_kept_lines(ls.drop_last());
        if !sse_line_skipped(ls.last()) {
            assert(k.push(ls.last()).drop_last() =~= k);
        }
    }
}

/// A stream that gives an image gives the same image when lines that the
/// reader skips (lines without `data:`, `data:` alone, `data: [DONE]`) are
/// added to it or taken from it anywhere: two bodies with the same kept
/// lines have the same result.
pub proof fn law_sse_ignores_skipped_lines(body: Seq<char>, other: Seq<char>)
    requires
        sse_kept_lines(lines(other)) == sse_kept_lines(lines(body)),
        sse_result(body) is Ok,
    ensures
        sse_result(other) == sse_result(body),
{
    law_sse_scan_reads_only_kept_lines(lines(body));
    law_sse_scan_reads_only_kept_lines(lines(other));
}

/// Inserting skipped lines at one place of a stream that gives an image
/// leaves the image as it is.
pub proof fn law_sse_ignores_inserted_skipped_lines(
    body: Seq<char>,
    other: Seq<char>,
    at: int,
    extra: Seq<Seq<char>>,
)
    requires
        0 <= at <= lines(body).len(),
        forall|i: int| 0 <= i < extra.len() ==> sse_line_skipped(#[trigger] extra[i]),
        lines(other) == lines(body).take(at) + extra + lines(body).skip(at),
        sse_result(body) is Ok,
    ensures
        sse_result(other) == sse_result(body),
{
    let ls = lines(body);
    lemma_sse_kept_lines_all_skipped(extra);
    lemma_sse_kept_lines_concat(ls.take(at), extra);
    lemma_sse_kept_lines_concat(ls.take(at) + extra, ls.skip(at));
    lemma_sse_kept_lines_concat(ls.take(at), ls.skip(at));
    assert(ls.take(at) + ls.skip(at) =~= ls);
    assert(sse_kept_lines(ls.take(at)) + Seq::<Seq<char>>::empty() =~= sse_kept_lines(ls.take(at)));
    law_sse_ignores_skipped_lines(body, other);
}

/// Once the preview has found an error message, the lines after it do not
/// change it.
pub proof fn law_preview_ignores_later_lines(ls: Seq<Seq<char>>, later: Seq<Seq<char>>, m: Seq<char>)
    requires
        preview_scan(ls) == Scan::<PreviewState, Seq<char>>::Done(m),
    ensures
        preview_scan(ls + later) == Scan::<PreviewState, Seq<char>>::Done(m),
{
    assert((ls + later).take(ls.len() as int) =~= ls);
    lemma_preview_done_stays(ls + later, ls.len() as int, m);
}

proof fn lemma_contains_push(u: Seq<Seq<char>>, l: Seq<char>, x: Seq<char>)
    ensures
        u.push(l).contains(x) <==> (u.contains(x) || x == l),
{
    if u.contains(x) {
        let t = choose|t: int| 0 <= t < u.len() && u[t] == x;
        assert(u.push(l)[t] == x);
    }
    if x == l {
        assert(u.push(l)[u.len() as int] == l);
    }
    if u.push(l).contains(x) {
        let t = choose|t: int| 0 <= t < u.push(l).len() && u.push(l)[t] == x;
        if t < u.len() {
            assert(u[t] == x);
        }
    }
}

/// Keeping each message at its first occurrence keeps every message and
/// repeats none.
pub proof fn law_unique_in_order(s: Seq<Seq<char>>)
    ensures
        forall|x: Seq<char>| s.contains(x) <==> unique_in_order(s).contains(x),
        forall|i: int, j: int|
            0 <= i < j < unique_in_order(s).len() ==> unique_in_order(s)[i] != unique_in_order(
                s,
            )[j],
    decreases s.len(),
{
    if s.len() > 0 {
        let p = s.drop_last();
        let l = s.last();
        law_unique_in_order(p);
        assert(s =~= p.push(l));
        let u = unique_in_order(p);
        assert forall|x: Seq<char>| s.contains(x) <==> unique_in_order(s).contains(x) by {
            lemma_contains_push(p, l, x);
            lemma_contains_push(u, l, x);
        }
        if !u.contains(l) {
            assert forall|i: int, j: int|
                0 <= i < j < u.push(l).len() implies u.push(l)[i] != u.push(l)[j] by {
                if j == u.len() {
                    assert(u.push(l)[j] == l);
                    assert(u.push(l)[i] == u[i]);
                }
            }
        }
    }
}

} // verus!
