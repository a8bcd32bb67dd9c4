# locoryn

The logic behind Locoryn, a client for local AI models with web search,
reasoning, image tools and saved conversations, written in Verus: the
functions in `src/` carry contracts that Verus proves, apart from the small
trusted wrappers around outside crates and std listed under "Trusted
wrappers" below.

## Layout

- `src/` — the verified library.
  - `web_search/` — search settings, providers and their requests,
    tool-call arguments, the research budget and session (the tool loop's
    decisions), page fetching rules (URL and address checks, HTML to text,
    charsets), streamed chat replies from Ollama and from OpenVINO Model
    Server's OpenAI-compatible API, tool-call dispatch, and the final
    synthesis prompts.
  - `app_state.rs`, `chat_list.rs` — the chat window's state and what each
    user action does to it: new, temporary and deleted chats, the per-chat
    web-search switch, pins, switching and deleting profiles.
  - `server_address.rs` — the HTTP(S) address of the inference server.
  - `content_filter.rs` — hiding inappropriate words when filtering is on.
  - `thinking.rs` — reasoning levels and what a model's details say it can do.
  - `conversation_search.rs` — ranking saved conversations against a query.
  - `code_checking.rs` — languages, the checker commands, the source rules
    and the reports of code checks.
  - `image_editing.rs` — image data, dimensions and the image tool calls.
  - `live_markdown.rs` — masking code blocks that are still streaming, and
    the checks on images shown in markdown.
  - `password.rs`, `profiles.rs` — password hashes and profile records.
  - `tool_settings.rs`, `versions.rs`, `chat.rs`, `text.rs` — tool switches,
    version ordering, chat helpers and the string toolkit the rest uses.
- `tests/` — tests run against the compiled library.
- `app/` — the command-line program: network and file I/O, the async
  request loop, serialisation, and the few float computations.

Calls into outside crates (`url`, `encoding_rs`, `argon2`, `chrono`,
`reqwest`'s status codes, `base64`, `image`, `rustrict`) and a few std string functions
sit behind small trusted functions, marked `#[verifier::external_body]`,
whose doc comments say what is assumed of them; Verus does not check those
bodies.

## Trusted wrappers

Each of these is marked `#[verifier::external_body]`; Verus takes its
contract on trust.

| Wrapper | File | Calls |
|---|---|---|
| `push_char` | `src/text.rs` | `String::push` |
| `to_lowercase` | `src/text.rs` | `str::to_lowercase` |
| `char_to_lowercase` | `src/text.rs` | `char::to_lowercase` |
| `is_alphanumeric` | `src/text.rs` | `char::is_alphanumeric` |
| `phc_algorithm` | `src/password.rs` | `argon2::PasswordHash::new` |
| `argon2_verifies` | `src/password.rs` | `PasswordHash::new`, `Argon2::verify_password` |
| `argon2_hash` | `src/password.rs` | `SaltString::generate`, `Argon2::hash_password` |
| `base64_decode`, `base64_encode` | `src/image_editing.rs` | base64's standard engine |
| `read_image_dimensions` | `src/image_editing.rs` | `image::ImageReader` |
| `url_parts` | `src/web_search/fetch.rs` | `url::Url::parse` and its host and port methods |
| `status_reason` | `src/web_search/fetch.rs` | `StatusCode::from_u16`, `canonical_reason` |
| `encoding_for_label` | `src/web_search/fetch.rs` | `encoding_rs::Encoding::for_label` |
| `decode_labeled` | `src/web_search/fetch.rs` | `Encoding::for_label`, `Encoding::decode` |
| `utf8_lossy` | `src/web_search/fetch.rs` | `String::from_utf8_lossy` |
| `url_scheme` | `src/web_search/providers.rs` | `Url::parse`, `Url::scheme` |
| `rfc3339_millis` | `src/web_search/providers.rs` | chrono's RFC 3339 formatting |
| `url_domain`, `url_query_pairs`, `url_with_query` | `src/web_search/research.rs` | `url::Url` |
| `censor` | `src/content_filter.rs` | `rustrict::Censor` |
