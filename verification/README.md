# goose_tui

The terminal interface of the goose agent, with its logic verified in Verus.

- `src/` is the verified library:
  - `text.rs`: UTF-8 byte lengths, character boundaries, and the few
    `String` operations the editing code needs;
  - `theme.rs`: the palette and text styles;
  - `markdown.rs`: word wrapping, truncation, inline markdown spans and
    block markdown rendering into styled lines;
  - `chat.rs`: the chat state and its one-line input editor (byte cursor
    kept on character boundaries);
  - `views.rs`: the session, extension and provider lists, with the
    provider search;
  - `acp.rs`: the messages exchanged with the agent client and the
    decisions of its command loop;
  - `app.rs`: the application state and how keys and agent messages
    change it, returning the commands to send;
  - `layout.rs`: the text of every screen, line by line.
- `tests/` exercises the library.
- `app/` is the program: terminal setup, event thread, drawing with
  ratatui, and the agent client process over ACP.
