# lsp_gpt

A language server for PlantUML files that does not implement the language
itself: it forwards each editor request, together with configurable prompts
and the documents of the workspace, to a chat-completion model and relays the
model's JSON answer to the editor.

- `src/` is the verified library (Verus): parsing of the model's answer, of the
  secrets file and of prompt files, the prompt configuration, the
  conversation sent to the model, the invocation log, and the decisions of the
  message loop.
- `app/` is the executable around it: the stdio connection, HTTP, files,
  environment and logging.
- `tests/` runs the library on concrete inputs.

Run `app` with `--log-stats` to print statistics of the diagnostic
invocations recorded in `./invocations.csv`.
