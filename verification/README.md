# shop

A chain of shops that sell from their own stock and pass a token around a
ring so that e-commerce orders one shop cannot serve reach the others.

- `src/` is the verified library (Verus):
  - `stock.rs` – a ledger of product counts, one entry per product, modelled
    as a `Map<Seq<char>, usize>`;
  - `inventory.rs` – units on sale and units reserved for deliveries, the
    order handlers, and the laws on reserving, selling and returning units;
  - `text.rs`, `order.rs` – reading `"<product>: <quantity>"` lines;
  - `wire.rs` – message framing (kind byte, little-endian length, payload);
  - `ring.rs` – a shop's place on the ring and what it does with each message;
  - `token.rs`, `syn.rs`, `offline_shop.rs`, `incomplete_order.rs` – the
    messages;
  - `delivery.rs`, `ecommerce.rs` – delivery times and the e-commerce client's
    choice of shop (random draws through `rand`).
- `app/` runs the shops (actix actors, tokio sockets, JSON through serde) and
  the e-commerce client (`ecommerce <shop_amount> <orders_path>`).
- `tests/` exercises the library on concrete values.
