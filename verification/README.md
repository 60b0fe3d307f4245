# mnemonai

A terminal browser for the conversation history of coding agents: it groups
conversations by project, searches and previews them, opens them in a viewer,
resumes them in the tool they were held with, and prunes old ones.

`src/` is the logic, with contracts that Verus proves:

- `text`, `paths`, `order`, `numbers`, `time`: strings, paths, stable sorting,
  rounding and points in time.
- `history`: conversations, how they are grouped by project and ordered by age.
- `conversation_index`: the rows that keep conversations between runs.
- `providers`: reading transcripts, finding the workspace behind an encoded
  directory name, and the commands that resume a session.
- `prune`: which conversations are deleted, and what is asked before.
- `tui`: the dashboard as a state machine. `model` and `key_model` say what each
  step does, `app` does it, `requests` is what it asks of its surroundings,
  `preview` builds the preview pane, and `laws` holds what is true across steps.

`app/` is the program around it: files, the index database, the clipboard,
child processes, the terminal. It performs what the library asks for and hands
back what came of it. The search, the full-screen renderer and the export
formats are collaborators behind traits.

`tests/` runs the library on concrete values.
