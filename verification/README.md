# nayan

纳言 (NaYan) is a macOS menu-bar inbox for suggestions collected from AI
coding sessions: a global hotkey captures the selected text of any
application (AX read, command-C fallback), box selection reads text blocks
from an application's AX tree (or the screen, through OCR), a passive
clipboard channel offers new copies, and everything lands in a local SQLite
store with steps that an OpenAI-compatible model can split out.

## Layout

- `src/` — the verified library (Verus):
  - `text.rs`: string operations used by everything else, with their
    specifications (trimming, splitting, searching, decimal numbers).
  - `keys.rs`: key-code table, shortcut strings, the hotkey binding table and
    record mode of the event tap.
  - `clipwatch.rs`: the clipboard watcher's state and its poll decisions.
  - `capture.rs`: the capture chain (AX read, command-C fallback), workspace
    guess, source-window matching, AX walk limits, joining text fragments,
    OCR helper output.
  - `inbox.rs`: API routing, list queries, creating and updating
    suggestions and steps, the AI split prompts and reply parsing, the import
    of the browser version's database.
  - `settings.rs`: configuration defaults, provider presets, saving the
    settings page, the chat request and reply.
- `tests/` — tests of the library.
- `app/` — the Tauri application around the library: AppKit/AX calls, the
  event tap, the pasteboard thread, SQLite, HTTP, windows.
