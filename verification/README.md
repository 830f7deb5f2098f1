# trading_eng

The decision core of a desktop order-book visualizer, verified with Verus.

The visualizer drives a bid book and an ask book of a matching engine with a
self-running market simulator: each tick random-walks the mid inside an
anchor-relative band, posts passive bids below the mid and asks above it,
fires a few marketable orders, records the trade prints, and trims each side
back under a depth cap. Prices live on a one-cent grid as integer cents.

Layout:

- `src/engine.rs`: the simulator state, seeding of the band, tick plans, and
  the two halves of submitting an order (before and after the matching engine
  crosses it).
- `src/depth.rs`: book levels, order ids, and the best-first snapshot.
- `src/trim.rs`: random cancellation down to the depth cap.
- `src/quote.rs`: ticker normalisation, the chart endpoint, reply checks,
  re-anchoring at a loaded price.
- `src/text.rs`, `src/chance.rs`: the trusted calls into `rust_decimal`, `std`
  and `rand`, each with its contract.
- `src/laws.rs`: properties that span several operations.
- `app/lib.rs`: the Tauri commands, the matching engine's books, the HTTP
  request for a price, and the serializable copies of the snapshot types.
