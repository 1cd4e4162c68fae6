# WarpSOLO

Coding agents that run on the user's own machines, with a terminal around them.

- `src/` is the library: everything that the program decides and computes, verified with Verus.
  - `terminal`, `pty`, `pane_group`: the screen that escape sequences draw on, plain text from shell
    output, and tabs of split panes.
  - `session`: shared sessions, with their events, participants and roles.
  - `agent_api`, `chat`, `tools`, `agent_state`, `llm_config`: requests to the agent, the conversation
    with a model, the tools that it uses, and the models that are configured.
  - `runs`: agent runs that one machine does for another.
  - `discovery`, `account`, `graphql`, `server`: machines that find each other, who this machine is,
    and the answers that clients get.
  - `text`, `text_map`, `json`, `ids`, `paths`, `clock`: what the rest is built of.
- `tests/` runs the library on examples.
- `app/` is the program: sockets, files, the shell, the model providers and the window. The wire
  formats of the agent protocol (`wire_agent.rs`) and of shared sessions (`wire_session.rs`) and the
  window (`ui.rs`) need `warp_multi_agent_api`, `session_sharing_protocol`, `warp_terminal`
  and `warpui` from the Warp workspace.

Each public function says in its contract what it returns. What holds of the library as a whole is
stated by the proof functions whose names begin with `law_`.
