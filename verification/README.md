# proc_macro_srv

The server side of the procedural macro bridge, with token trees as its data.
A macro asks it to make, take apart, print and number tokens; the answers that
the library gives are stated in contracts and proved by Verus.

- `src/tt.rs`: token trees and their source text
- `src/bridge.rs`: what the compiler's side of the bridge speaks in
- `src/token_stream.rs`: streams, how they are collected, read and parsed
- `src/interner.rs`: identifiers by number
- `src/numeral.rs`, `src/escape.rs`, `src/text.rs`: the text of literals
- `src/server.rs`, `src/literal.rs`, `src/diagnostic.rs`: the requests
- `src/laws.rs`: what holds between them
- `app/`: the server as a host drives it, with the host's parser, floating
  point and source files
