# yield_farming

Verified components of a set of Radix yield-farming and portfolio dApps:
an AMM pool, bid auctions and an auction-driven basket fund, a trading
market and a portfolio on it, an investment pool, an index with flash
loans and two exchanges, the JuicyYields lottery and yield chooser, and
the lending platform (registry, farmers market, index and debt funds,
funding lockers and the dashboards of managers, borrowers and investors),
and the weight-based fund locker, main dashboard and pool delegate
dashboard of the earlier lending design.

- `src/` is the library, written in Verus. Amounts are `Decimal` atto
  counts whose products, quotients, roundings and text come from Scrypto's
  `Decimal`; resources and components are `u64` ids. Each component's
  operations carry contracts over spec functions, and `pub proof fn` items
  state the laws that span operations.
- `tests/` runs the library on concrete values.
- `app/` holds what runs beside it: conversions to Scrypto's `Decimal`,
  random numbers, and the reports the components print.
