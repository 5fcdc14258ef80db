use vstd::prelude::*;

use crate::order::{Order, OrderModel};

verus! {

/// An e-commerce order that the shop `shop_id` took but could not serve.
pub struct IncompleteOrderModel {
    pub shop_id: usize,
    pub product_id: Seq<char>,
    pub quantity: usize,
}

/// An e-commerce order that its shop could not serve, travelling on the
/// token so that another shop may serve it.
#[derive(Debug, PartialEq, Eq, Clone)]
pub struct IncompleteOrder {
    product_id: String,
    quantity: usize,
    shop_id: usize,
}

impl View for IncompleteOrder {
    type V = IncompleteOrderModel;

    closed spec fn view(&self) -> IncompleteOrderModel {
        IncompleteOrderModel {
            shop_id: self.shop_id,
            product_id: self.product_id@,
            quantity: self.quantity,
        }
    }
}

impl IncompleteOrder {
    /// The order for `quantity` units of `product_id` that shop `shop_id` took.
    pub fn new(shop_id: usize, product_id: String, quantity: usize) -> (order: Self)
        ensures
            order@ == (IncompleteOrderModel { shop_id, product_id: product_id@, quantity }),
    {
        IncompleteOrder { product_id, quantity, shop_id }
    }

    /// The shop that took the order.
    pub fn get_shop_id(&self) -> (shop_id: usize)
        ensures
            shop_id == self@.shop_id,
    {
        self.shop_id
    }

    /// The product ordered.
    pub fn get_product_id(&self) -> (product_id: &String)
        ensures
            product_id@ == self@.product_id,
    {
        &self.product_id
    }

    /// The number of units ordered.
    pub fn get_quantity(&self) -> (quantity: usize)
        ensures
            quantity == self@.quantity,
    {
        self.quantity
    }

    /// The plain order for the same product and quantity.
    pub fn to_order(&self) -> (order: Order)
        ensures
            order@ == (OrderModel { product_id: self@.product_id, quantity: self@.quantity }),
    {
        Order::new(self.product_id.clone(), self.quantity)
    }
}

/// Errors raised while reading an incomplete order.
#[derive(Debug)]
pub enum IncompleteOrderError {
    Deserialize(String),
}

} // verus!
