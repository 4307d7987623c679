# pesit

PeSIT E file transfer: the protocol, both ends of a session, and a node that
listens for transfers and starts them.

- `src/` is the library. Every function states what it does in `requires` / `ensures` clauses,
  and Verus proves them. The `law_*` proof functions state what holds across functions: what a
  decoder gives back of an encoder, what both ends of a session agree on, what a resynchronisation
  undoes.
- `app/` is the `pesitwizard` program around the library: sockets, TLS, files, the SQLite store,
  the REST interfaces and the command line.
- `tests/` run the library on concrete values.

| Modules | Subject |
| --- | --- |
| `crc`, `pi`, `diag`, `kind`, `fpdu`, `params`, `builder` | FPDUs: codes, encoding, typed parameters |
| `article`, `compress`, `frame`, `transport`, `link`, `io`, `ebcdic` | articles, compression, entities, framing, pre-connection |
| `state`, `phase`, `exchange` | the state tables of both roles |
| `checkpoint`, `datapath`, `sender`, `receiver` | the data phase: synchronisation, windows, resynchronisation |
| `requester`, `responder`, `message` | sessions, transfers and messages, step by step |
| `client`, `node`, `service`, `connector`, `cluster`, `tls` | transfer records, access rights, schedules and settings |
| `*_laws` | laws that span several of these |

Calls into `chrono`, `uuid`, `sha2`, `base64`, `rustls-pemfile` and `serde_json` stand behind small
functions marked `external_body`; the comment above each says what is believed of the call.
