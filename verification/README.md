# robot_harness

A terminal harness in which a language model turns a high-level goal into a
plan of atomic tasks for a vision-language-action policy, and then tracks the
plan's progress from camera frames.

- `src/` is the library, verified with Verus: reading prompts (`events`), the
  chat screen's state (`chat`), the agent loop's decisions (`agent`), the
  assembly of streamed completions (`stream`), the plan tools (`plan`), tool
  schemas and the tool registry (`schema`, `tools`), skills (`skill`), the
  session (`session`), the turns that prompts and evaluations start (`turns`),
  request options (`request`), frame encoding (`frame`) and text operations
  (`text`).
- `app/` is the program around it: the terminal, the camera, the HTTP client,
  the file system and the JSON forms of the library's types.
- `tests/` runs the library on concrete values.

Commands start with a backslash (a slash is read the same way):
`\planner <goal>` plans the goal from the latest camera frame, and
`\eval_loop` (or `\eval`) keeps comparing the frames with the plan to update
its progress.
