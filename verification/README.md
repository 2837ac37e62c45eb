# crucible

The decisions of the crucible engine around its manifest and its provisioning broker, written in
Verus: the functions in `src/` carry contracts that the verifier proves, but for the few that call
into other crates, whose contracts are trusted.

- `manifest`: the types of `crucible.toml`, its cross-field checks, loading it for a run (from the
  workspace's base commit where the manifest lies inside the workspace), resolving its workflow,
  applying injects, composites.
- `manifest::broker`, `broker`: where the sandbox reaches the broker, and how the broker is started.
- `hard_tools`, `routes`: the nm-hard-tools services behind the broker: tokens, discovery, exposed
  names, the tools that can be called, requests and responses.
- `server`, `telemetry`, `trace`, `startup`: the replies of the broker's tools, what is recorded of
  them, the parent of a call's span, and the settings of the process.
- `text`, `numeral`, `names`, `paths`, `json`: texts, numbers, ordered names, lexical paths and JSON
  objects, with the facts about them that the rest relies on.

The functions that call into other crates are small and marked `external_body`; the comment above
each says what is taken on trust.

`app/` is the program around the library: the command line, files, git, processes, HTTP, and the
types that read TOML and JSON.
