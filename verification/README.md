# grok_peers

Peer messaging between the live Grok sessions of one machine, and the Cursor client
mode that forwards a session's prompts to a Cursor agent. The logic is verified with
Verus; `app/` runs it on real files, sockets, processes and HTTP.

## Library (`src/`)

| Area | Modules |
|------|---------|
| Text, paths, time, JSON | `text`, `seqs`, `paths`, `clock`, `json` |
| Peers | `naming`, `registry`, `inbox`, `send`, `stamp`, `session` |
| Peers MCP server | `mcp`, `stdio`, `replies`, `selftest`, `peers_mcp` |
| Cursor SDK bridge | `error`, `auth`, `discover`, `handshake`, `bridge`, `transport`, `client` |
| Pager | `app_view`, `cursor_client`, `dispatch`, `slash` |
| Tools | `tools` |

Contracts are stated over `Seq<char>`, `Seq<u8>`, `Map` and small model types. Where
a result hangs on the machine, the function takes a callback, and its contract says
what the callback is handed and what follows from each of its answers. Each module
ends with the laws that hold across its functions.

What is believed without proof is marked where it stands: the calls into `serde_json`,
`chrono` and `uuid`, the clocks, and four functions of the standard library's strings.

## Around it (`app/`)

The registry file and its lock, inbox sockets, the stdio loop of the MCP server, the
sidecar process, Connect requests, and the serialized forms of the records. The
messages of the `sdk.v1` protocol are behind the trait `SdkV1`.
