# rabbit_digger

The verified core of a proxy toolkit: address handling, the SOCKS5 and Trojan wire
formats and handshakes, the configuration model (string lists, single-or-list
values, net references and their resolution), the connection context, the
capability model of nets, and the state machines of the streams (pushing writes,
splicing, head sending, peeking, WebSocket framing). Every function in `src/` is
verified by Verus against its contract, except these trusted wrappers around std and
outside crates, whose contracts Verus takes as given: `str_from_utf8`, `shrink_vec`
and `str_debug` (with the name `str_debug_text`) in `compact.rs`; `json_string_text`,
`json_text` and `clone_json` (and the declared type `serde_json::Value`) in
`json.rs`; `string_from_utf8` in `socks5.rs`; `sha224_digest` (with the name
`sha224`) and `hex_encode` in `trojan.rs`. The laws that tie functions together are
public proof functions whose names start with `law_`.

- `src/`: the library.
- `tests/`: tests of the library on concrete values.
- `app/`: a small SOCKS5 proxy over the local network and the I/O glue (sockets,
  `splice(2)`, JSON, text forms of IP addresses) around the library.
