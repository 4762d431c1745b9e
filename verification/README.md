# ag_ui

A library for the AG-UI agent protocol and for A2UI surfaces, written in
Verus: every function in `src/` carries a contract that Verus proves, and
the properties that span several calls are stated as proof functions
(`law_*`).

## Layout

- `src/` — the verified library.
  - Protocol model: `ids`, `message`, `event`, `factories`, `input`,
    `outcome`, `patch`, `error`, `json`.
  - Ordering rules: `verify` (what a client accepts), `server_verify` (what a
    server may send), `laws` (normalized chunk streams always verify);
    `order` is the order of `str` on texts.
  - Client side: `chunks` (chunk normalization), `pipeline` (normalize,
    verify, apply), `sse` (the event-stream decoder), `agent`, `replay`.
  - Server side: `sink` (transform, verify, hand over), `context` (what a run
    sees), `transform` and `subagent` (stream transformers), `cancel`.
  - A2UI: `a2ui` (messages and prompt helpers), `data_model` (JSON Pointer
    writes), `history` (the operations a conversation holds, recovering a
    rendered surface, fresh surface ids), `catalogs` (catalog
    negotiation), `summary` (one-line surface descriptions).
  - Model-backed agents: `chat` (the OpenAI-compatible `messages`),
    `tool_calls` (reassembling streamed calls), `frames` (SSE framing),
    `turns` (the native Gemini turns and `contents`), `gemini`, `llm`,
    `prompt` (the subagent's prompt).
  - Streamed updates: `updates` (what one applied event means to a view).
- `tests/` — tests that run the library with its outside crates linked.
- `app/` — what cannot be verified: serde mirrors of the library's types,
  the HTTP transport, async streams and futures, the loops that stream a
  model's answer into a run (driving `turn_step` and `reply_step`), and
  reading the environment.
