# turn_recovery

Continuing an unfinished turn of a conversation: a turn that was interrupted or
that failed is taken up again from its durable history, with the items it has
and without a user message.

- `src/` is the verified library.
  - `continue_turn` is the course of a `turn/continue` request: which action
    comes next, given what came of the last one. `course` states what holds of
    every such course.
  - `recovery_plan` decides which turn of a loaded history is continued.
  - `paginated_turn_items` collects the items of a turn from pages.
  - `history` and `thread_state` hold turns, and take a recovered turn over when
    it begins again.
  - `client` is the `/continue` command of a client.
  - `text`, `turn` and `rpc` hold what the others share.
- `tests/` runs the library.
- `app/` carries the actions out against a server's services.
