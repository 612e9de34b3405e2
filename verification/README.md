# oapitui

A terminal UI for exploring and testing OpenAPI services: load an OpenAPI 3.x
document by URL or file, browse its endpoints, fill in parameters and a JSON body,
send the request and read the response.

The program's logic is a library whose behaviour is stated in contracts and proved
with Verus; the terminal program around it only reads, draws and sends.

## Layout

- `src/` — the verified library
  - `text`, `json` — text helpers and a JSON value with compact and pretty printing
  - `schema`, `openapi` — the OpenAPI model, `$ref` resolution, example generation,
    endpoint extraction
  - `document` — reading a document (JSON, then YAML) into the model, and a response
    body as JSON
  - `config`, `client`, `theme` — servers, environments and their settings, the
    request to send with environment variables filled in, colour parsing and the theme
  - `views` — the state of each screen (server list, add-server form, endpoint list,
    request builder with its body editor, response viewer, history, environments)
  - `app` — the application state machine: a key or a background result in, the new
    state and the work to do (save, fetch, send, write a file) out
  - `ui` — what the screens show, as styled lines: detail panes, Markdown, JSON
    colouring, the body cursors, the help bar, popup geometry
  - `laws` — properties of the library as a whole
- `app/` — the program: configuration files, HTTP, the terminal and drawing
- `tests/` — tests of the library on concrete values
