# minerstatus

A Minecraft server status API whose logic is verified with Verus.

- `src/` (verified): MOTD rendering to plain text, HTML and ANSI
  (`motd`), response models and their construction from a ping (`status`),
  the TTL + capacity response cache (`cache`), the decisions of Java,
  Bedrock and auto-detecting queries (`query`), request planning and
  replies, including the PNG icon (`reply`), and configuration resolution
  from `config.toml` and `MINESTATUS_*` variables (`config`).
- `app/`: the axum HTTP server, the network probes (`rust-mc-status`), the
  clock, file and environment reading, and serde/OpenAPI copies of the
  response models.
- `tests/`: scenarios on concrete values.
