# xtrade

A market data monitor for Binance spot and USDT-M perpetual markets. The
library (`src/`) holds the monitor's logic, verified with Verus against the
contracts written beside it; the program (`app/`) connects to the exchange,
reads the terminal and prints.

Market values are exact fixed-point numbers in units of `10^-8` (`fixed`).

## Library modules

- `text`, `fixed`: text helpers, decimal parsing and formatting.
- `book_side`, `orderbook`: the order book, snapshots and depth updates with
  sequence validation.
- `stream`, `rest`, `mock`: exchange message types, request URLs, a mock
  connection.
- `candles`, `feed`: daily candles and what one symbol subscription decides
  for each stream message.
- `market`, `planning`, `subscriptions`: streams, the startup subscription
  plan, subscription admission.
- `config`, `cli`, `commands`, `session`: configuration, command line,
  interactive commands, session bookkeeping.
- `alerts`, `alert_session`, `notify`: price alerts and their notifications.
- `metrics`: latency percentiles and connection quality.
- `decimal`, `paper`: decimal values and paper trading.
- `ui`, `ui_session`, `logbuf`: display state, how it takes in session events,
  the in-memory log.
- `demo`: the stream demonstration's message processing.

## Program

`app/` parses arguments, reads `config.toml` and the `XTRADE_*` variables,
sets up logging, runs the exchange connections and the interactive session,
and runs desktop notifications.
