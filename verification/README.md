# triarb

Triangular arbitrage on a spot exchange, as a verified library and a thin program around it.

The library (`src/`) is checked by Verus:

- `decimal`: fixed-point decimals (a 96-bit mantissa and a scale) modelled as integer
  pairs; the arithmetic itself is done by `rust_decimal` behind small trusted wrappers.
- `symbol_map`: a map from symbol text to values, viewed as a `Map`.
- `config`: settings with their defaults, and the symbols a set of triangles needs.
- `market_data`: order books, the conversion of depth messages, the stream and snapshot
  addresses, and how a stream message updates the cache of books.
- `arbitrage`: the simulation of market orders against books, the capacity of a triangle,
  and the grid search for the most profitable volume, with the laws they keep.
- `execution`: lot rules, quantity rounding, signed order requests, and the state machine
  that sends the three orders of a trade one after the other, with its laws.
- `text`: numbers, hexadecimal, letter case and HMAC-SHA256 for the above.

The program (`app/main.rs`) reads the environment, talks HTTP and WebSocket to the
exchange, runs the loops, and logs; it calls the library for every decision.
