# gitlab-mcp

A GitLab [Model Context Protocol](https://modelcontextprotocol.io) server over stdio,
whose logic is a library verified with [Verus](https://github.com/verus-lang/verus).

The tool catalogue is data, not code: `data/tools.json` holds names, descriptions and
input schemas, `data/endpoints.json` says how each tool maps onto the GitLab API. The
server reads both from the `data` directory beside its executable.

## Layout

| Path | Contents |
| --- | --- |
| `src/` | the verified library |
| `app/` | `main`, the environment, files, HTTP and the MCP protocol around the library |
| `tests/` | tests of the library |

In the library, from the outside in:

| Module | Contents |
| --- | --- |
| `server` | what the client is told, which calls are refused, how results read |
| `exec` | a call begins, and goes on with each reply |
| `flow` | steps and stages of a call |
| `rest`, `graphql` | tools that make one call, and the lookups before it |
| `watch`, `jobs`, `webhook`, `files`, `issues`, `account` | tools that make several calls |
| `route`, `variables`, `shape`, `args` | paths, query strings and bodies, GraphQL variables, responses, arguments |
| `gitlab`, `http` | requests and replies |
| `registry`, `config` | the catalogue and the settings |
| `patch`, `diff`, `search`, `encode`, `text`, `unicode`, `pattern` | texts |
| `json`, `number`, `interop`, `lists`, `strmap`, `strset` | JSON values and ordered maps |

The library does no I/O. A call is a state machine: `GitLabMcp::call_tool` gives the
first `Step`, and `GitLabMcp::resume` turns a reply into the next one, until a step is
`Done`. Every function states what it returns over mathematical views of its
arguments; what holds across functions is stated and proved as `law_…`.

What the library has from other crates is stated where it is called: reading and
printing JSON (`interop`, `number`), percent-encoding (`encode`), regular expressions
(`pattern`), and the rules of HTTP (`http`). The case tables and the quoting of the
standard library are in `unicode`.
