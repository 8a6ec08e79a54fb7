# pixlab

The Codex side of PixLab Desktop, as a verified library: signing in to Codex
with OAuth and PKCE, keeping the tokens fresh, building the spritesheet
generation request, and reading the server-sent event stream that carries the
generated image.

- `src/` is the library, verified with Verus:
  - `text`: trimming, line splitting, searching, joining, number formatting;
  - `json`: a JSON document as plain values, parsed by `serde_json`;
  - `encoding`: hexadecimal, base64, percent-encoding, SHA-256, PKCE;
  - `oauth`: the authorization URL and the local callback page;
  - `login`: login progress and the registry the status polls read;
  - `token`: stored tokens, the ID-token profile, exchange and refresh;
  - `codex`: the prompt, the request body, the reference-image check,
    headers and `curl` arguments;
  - `events`: error messages, images and the event stream of a response;
  - `generate`: the steps of a generation (curl, HTTP fallback, one refresh)
    and what is kept of the image.
- `app/` is the Tauri application around it: commands, files, HTTP, the
  callback server, `curl` and the browser.
- `tests/` runs the library on concrete inputs.
