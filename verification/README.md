# codex_surface

The decisions behind parts of a coding agent's interface, as a verified library:

- `pager`, `pager_render`, `transcript`, `transcript_screen`, `overlay`: the overlays that page through
  the conversation, their layout, scrolling, hit testing and drawing.
- `patches`: cells about patches and images, with hyperlinks to the files they name.
- `mcp`: the lists of MCP servers and of their actions.
- `file_tools`, `patch_text`, `tool_spec`: the tools that read, create and update files.
- `wakeup`: waking an idle session when a background command has completed.
- `canvas`, `cells`, `renderable`, `hyperlinks`, `styled`, `keys`, `geometry`, `strings`: what the
  others stand on.

Every executable function states in its contract what it returns and changes; the `law_` functions
state what holds across several of them. What `ratatui`, `unicode-width`, `url` and the standard library
do is described by the `external_body` functions and `assume_specification` items, mostly in `canvas`,
each next to the call it describes.

`app/` connects the library to a terminal, a runtime, a file system and a pane; it is not verified.
