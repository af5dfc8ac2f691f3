# analyze-screen

Captures what is on a television's screen and has a vision model describe it.
The screen-analysis tool gives an agent the description as JSON that has been
validated against a fixed schema; the tool server gives it in words; the proxy
answers a client with validated JSON, whatever the agent said. The library is
written in Verus: what each function returns is stated in its contract and
proved.

| Module | What it holds |
|---|---|
| `validate` | the schema of an analysis, what is wrong with a document, strict and lenient validation, the error object |
| `extract` | finding the JSON in a reply that wraps it in a fence or in prose |
| `postprocess` | the proxy in front of the agent's gateway: routing, responses, one turn and at most one retry |
| `tool` | the screen-analysis tool, step by step |
| `mcp` | the tool server: JSON-RPC requests, the screenshot tool, the description tool |
| `capture` | how a run of the capture binary ended, and which file is the screenshot |
| `picture` | downscaling |
| `paths` | the directory that the binary runs in, the extension of a file |
| `vlm` | requests to the vision model, and its replies |
| `stagelog` | log lines and timings of a request |
| `config` | configuration from environment variables |
| `json`, `text` | JSON documents and text |

Laws that relate several functions are the public proof functions whose names
begin with `law_`, at the end of the modules. Functions of other crates are
called through small wrappers; the comment above each says what is taken for
granted of it.

`app/` holds the programs around the library: `postprocess` (the proxy),
`tools-mcp` (the tool server on standard input and output) and `analyze` (one
run of the tool). They carry out the steps that the library decides on, read
the clocks, the environment and the file system, and write the logs.
