# crypbitrage

Watches the order books of two exchanges (OKX and Deribit) and folds every
book message into one cross-exchange limit order book.

- `src/` is the verified library: the combined book (`lob.rs`) and its laws
  (`laws.rs`), the exchange messages and ids (`exchange.rs`), the
  subscription requests (`subscribe.rs`) and the rule a feed reader follows
  (`feed.rs`).
- `app/` is the program: command line, websocket connections, JSON decoding
  of the exchanges' messages, and the conversion of float prices and
  quantities into the integer keys the book holds.

Prices are held as integer keys that order and equate prices as
`ordered_float::OrderedFloat<f64>` does; quantities are held as the bits of
their `f64`.
