# smolgent

A small, extensible harness for OpenAI-compatible LLM agents, with its logic verified by Verus.

- `src/` is the library: messages and content, provider configuration and requests, sessions with
  their managed tool loop and context compaction, streamed responses, built-in file and search
  tools, read and write roots, and the planning behind the tool macros. Every function states what
  it returns or changes over a mathematical model of its types, and Verus proves it. What holds of
  several functions together stands beside them as public proof functions.
- `app/` is the ordinary Rust around it: HTTP, the serde wire format, keyrings, files, processes,
  asynchronous tools, and the Python module. It performs the actions that the library decides on
  and hands the outcomes back.
- `tests/` runs the library.

The library performs no I/O. Where work alternates with decisions, a state machine in the library
(`ManagedRun`, `ReadStep`, `PageReader`, `FileCreation`, `FileDeletion`, `PatchRun`, `Commit`,
`AncestorSearch`) returns the next action, and takes the event that came of it.

A few items are trusted rather than proved: wrappers around `serde_json` and its `Value`, `base64`,
`url`, and `reqwest`'s header types, and around std's UTF-8 decoding, debug output and
`String::push`. Each says in its documentation what it claims.
