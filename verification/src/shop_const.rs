use vstd::prelude::*;

verus! {

/// Shop `i` listens for the other shops on TCP number `PUERTO_BASE_SHOP + i`.
pub const PUERTO_BASE_SHOP: usize = 6000;

/// Shop `i` listens for e-commerce clients on TCP number `PUERTO_BASE_ECOMMERCE + i`.
pub const PUERTO_BASE_ECOMMERCE: usize = 7000;

/// Message kind of a join request.
pub const SYN_TYPE: u8 = 0;

/// Message kind of the token.
pub const TOKEN_TYPE: u8 = 1;

/// Message kind of the notice that a shop went offline.
pub const OFFLINE_SHOP: u8 = 2;

/// The longest a delivery may take, in seconds.
pub const MAX_TIME_DELIVERY: usize = 15;

/// Console command that brings a shop back into the ring.
pub const CONNECT: u8 = 99;

/// Console command that takes a shop out of the ring.
pub const DISCONNECT: u8 = 100;

} // verus!
