# agent_sdk

A toolkit for agents on top of streaming language models, verified with Verus.

The library under `src/` holds everything that decides or computes:

- `language_model`: requests, messages, tools, streamed events, errors.
- `agent`: the agent loop as a machine (`run_loop`), with the parts it works with: turns, tool
  calls, hooks, permissions, stop conditions, sessions, the builder. `run_laws` and
  `count_laws` state what holds of every run.
- `anthropic`, `openai`: how requests are written and streamed events are read, provider by
  provider.
- `sse`, `event_stream`: frames out of bytes, and model events out of frames. `stream_laws` states
  how streams end.
- `http`, `json`, `key_map`, `text`, `time`, `annotation`, `model`: what the others rest on.

The loop and the streams do no input or output. They say what is to be done next (`Step`, `Pull`)
and are told what came of it (`Reply`, the methods of `EventStream`). The crate under `app/` carries
the steps out: HTTP requests, tasks, channels, processes and serialization.

What the standard library, `serde_json` and `reqwest` do is stated, and not proved, at the few
places where they are called; each of these says in its doc comment what is taken for granted.
