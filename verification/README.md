# ua_invest_tax

An informal Ukrainian investment tax report from an Interactive Brokers
(IBKR) Flex Query statement, verified with Verus.

- `src/` is the verified library. `decimal` holds the fixed-point amounts and
  the calls into `rust_decimal`; `date` and `text` the dates and small text
  helpers; `broker` the broker reports and their parsers; `tax` the
  currencies, the NBU exchange rates, the tax policy, the adapter from IBKR
  statements to trades and dividends, and the tax report itself.
- `app/` is the command-line program: it reads the statement file, parses
  XML with serde and quick-xml, fetches NBU rates over HTTP, and hands plain
  values to the library.
- `tests/` runs the library on concrete statements and rates.
