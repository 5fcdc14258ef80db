use vstd::prelude::*;

verus! {

/// Errors raised by the e-commerce client.
#[derive(Debug)]
pub enum EcommerceError {
    ConnectShop(String),
    ReadFile(String),
    ParseOrder(String),
    ParseArgs(String),
    ToBytes(String),
}

} // verus!
