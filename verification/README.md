# crustly

The verified core of a terminal assistant: what it sends to a language model,
how it reads the answers, and how the terminal application moves from state to
state.

- `src/qwen` speaks to Qwen endpoints: requests in three styles of tool calling,
  responses, streams, and the tool calls that models write into their text.
- `src/llama_cpp` runs a model in this process: prompts, sampler chains, the
  generation step by step, and the thread that holds the model.
- `src/tui` is the terminal application: a state, the events that change it, and
  the effects that it asks for.
- `src/text.rs`, `src/json.rs`, `src/ids.rs` and `src/types.rs` are shared.

The functions have contracts that Verus proves. Calls into other crates stand
behind small trusted functions, whose contracts say what is taken for granted.
Properties of the library as a whole are public proof functions, most of them in
the `laws` modules; that tool calls are read back from the text they were written
into is in `src/qwen/written.rs`.

`app/` is ordinary Rust around the library: HTTP, threads, the clipboard, the
terminal's keys, and the loop that carries out effects. `tests/` runs the library.
