# bxwrp

An MCP server that offers a shell, tools for text files, and configured
programs of the host.

The library in `src/` holds the rules and proves them with Verus; it does no
input or output. `app/` speaks the protocol and does the work that the rules
ask for.

| Module | What it holds |
| --- | --- |
| `text`, `lines`, `matching` | joining, decimal numbers, numbered lines, occurrences and their replacement |
| `args` | the arguments of the server's own tools |
| `path` | the paths of the sandbox's files |
| `output` | the report on a program and the answer of a tool |
| `server` | what the server's own tools ask of the sandbox and answer |
| `json` | JSON values as `serde_json` holds them and as the rules read them |
| `config`, `schema`, `invocation` | configured programs, the schema of their arguments, and their calls |
| `conformance` | what holds of schemas and calls together |
| `tools` | the tools and how they are told apart |

A sandbox is asked in steps: a method of `server::Server` says what to run,
read or write, and another one takes what came of it and answers.
