# elitelm

EliteLM serves large language models on Snapdragon PCs through an
OpenAI-compatible API and a command-line tool, with three backends: a
deterministic fake backend, llama.cpp on the CPU, and Qualcomm Genie on the NPU.

The library in `src/` is verified with Verus:

- `config`: the configuration model, the ordered backend map, resolving
  backend paths against the configuration file's directory.
- `chat`, `text`: chat messages, token counting and streaming pieces, and the
  fake backend.
- `openai`, `server`: the API's request and response types, streamed chunks
  and server-sent events, model listing, error answers.
- `genie`, `json`: the Genie backend's invocation and outcome, bundle
  preparation checks, and rendering its HTP and Genie configurations.
- `llamacpp`: prompt formatting, sampler and context choices, token budgets
  and the token loop of a llama.cpp generation.
- `backend`, `cli`: choosing and setting up a backend, registry URLs, the
  interactive chat session and the statistics report.
- `paths`, `order`: path helpers over `std::path`, and string order.

`app/` holds the `elitelm` program: argument parsing, file and network I/O,
the HTTP server, serde forms of the library's types, and the calls into the
llama.cpp and Genie C APIs.
