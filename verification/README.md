# lexiang

The logic of `lx`, the command line of the Lexiang knowledge base, written
in Verus: each public function states what it returns in `requires` /
`ensures`, and Verus proves the code against it.

## Layout

- `src/` — the verified library.
  - `text`, `strmap`: character sequences and a small ordered string map.
  - `schema`, `catalog`, `cli_text`, `skill_gen`: the MCP tool schema, the
    schema manager, the help and listings, and the agent skill files.
  - `skill_build`, `cli_calls`: skill sources (`SKILL.md` templates), their
    placeholders, and the CodeBuddy and OpenClaw files built from them.
  - `ir`, `mdx_parse`, `emitter`: the block document model, MDX to blocks
    (through the `markdown` crate) and blocks to MDX.
  - `output`: JSON results laid out as tables, CSV and Markdown.
  - `blocks`, `paths`, `serve`, `transport`: block-tree queries, the data
    directory, and the JSON-RPC server's and client's decisions.
- `tests/` — tests of the library on concrete values.
- `app/` — the program around it: argument handling, files, printing, and
  the serde copies of the library's types.

Calls into outside crates (`markdown`, `regex`, `chrono`, `dirs`) and a few
std string functions stand behind `#[verifier::external_body]` wrappers whose
doc comments say what their contracts claim.

The laws of the library are its public proof functions named `law_*`.
