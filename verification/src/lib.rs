//! Verified core of a chain of shops that share one stock ledger per shop
//! and pass a token around a ring to settle orders no single shop can serve.

pub mod shop_error;
pub mod stock;
pub mod text;
pub mod order;
pub mod incomplete_order;
pub mod syn;
pub mod offline_shop;
pub mod token;
pub mod delivery;
pub mod inventory;
pub mod shop_const;
pub mod wire;
pub mod ring;
pub mod ecommerce_error;
pub mod ecommerce;
