# perp_auto_hedge

The verified core of a bot that hedges perpetual-futures positions across
Binance and Gate.

- `src/` is the library, verified with Verus:
  - `text`: decimal formatting and parsing of unsigned integers, lowercase
    hex, byte-level text comparison.
  - `crypto`: the HMAC-SHA256, HMAC-SHA512 and SHA-512 calls (`hmac`, `sha2`).
  - `exchange`: shared vocabulary (markets, sides, statuses, order tickets,
    errors), with `binance` (query strings, order and cancel parameters,
    signatures, stream URLs, request ids, and the reading of reply and
    private-stream JSON frames) and `gate` (decoding of the binary
    best-bid/offer frames, client order ids, signed requests, and the reading
    of reply, subscription, ticker and private-channel JSON frames, contract
    names and order statuses). JSON text is parsed with `serde_json`.
  - `config`, `logging`, `engine`, `pair`, `state`, `market`, `execution`:
    configuration values, logging decisions, the engine's event handling and
    the pair/state vocabulary.
- `app/` is the program around it: environment, HTTP and WebSocket I/O,
  threads, and the floating-point parts (prices, sizes, and the JSON rows that
  carry them).
- `tests/` exercises the library on concrete values.
