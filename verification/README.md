# proxy

The logic of a rule-based proxy, verified with Verus, and the program around it.

- `src/` is the library. It holds the wire formats (SOCKS5, HTTP CONNECT, Hysteria2, DNS, IP and UDP
  headers), the tables (fake addresses, DNS caches, sessions, address mappings), the rules that flows
  are dispatched by, and the state machines that dial, forward and resolve. Functions take what was
  read so far, or an event, and return what is to be done next. Verus proves each of them against its
  contract, but for the wrappers.
- The wrappers are the functions that call other crates, in `src/deps/`, and a few that call `std`, in
  `src/text.rs` and `src/flow/error.rs`. Their contracts are not proved but taken on trust, and say
  so.
- `app/` is the program: sockets, files, TLS, the command line.
- `tests/` runs the library together with the crates that it calls.

| module | what is in it |
| --- | --- |
| `flow`, `net`, `net_text`, `text`, `be`, `tables` | addresses, contexts, text and numbers, tables |
| `socks5`, `socks5_associate`, `socks5_udp` | SOCKS5, both sides |
| `http_proxy`, `h2` | HTTP proxies, both sides |
| `shadowsocks` | destinations and sealed streams |
| `hysteria2`, `tuic`, `conn_slot` | QUIC based outbounds |
| `fakeip`, `fakeip_mapback` | fake addresses and the way back |
| `ip_stack`, `checksum`, `tun` | packets and TUN devices |
| `dns_server`, `host_resolver`, `dns_probe` | DNS |
| `rule_dispatcher`, `domains`, `service`, `config`, `api` | rules, settings, the control interface |
| `forward`, `socket`, `redirect`, `resolver`, `resolve_dest` | carrying flows |
| `udp_session_manager`, `tcp_manager`, `data` | sessions, pooled connections, saved values |

The program takes one of `proxy`, `dispatch`, `udp`, `dns`, `hy2`, `tun` and `dns-test`. It reads
`config.toml`, or `server.txt` where there is none, and for its rules `rules.txt` and
`direct_domains.txt`. Flows for the server are opened with CONNECT.
