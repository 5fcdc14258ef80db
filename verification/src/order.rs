use vstd::prelude::*;

use crate::shop_error::ShopError;
use crate::text::{
    find_separator, first_field, has_separator, parse_usize, parsed_usize, parses_as_usize,
    second_field,
};

verus! {

/// What an order is about: a product and how many units of it.
pub struct OrderModel {
    pub product_id: Seq<char>,
    pub quantity: usize,
}

/// A request for `quantity` units of a product.
#[derive(Debug)]
pub struct Order {
    product_id: String,
    quantity: usize,
}

impl View for Order {
    type V = OrderModel;

    closed spec fn view(&self) -> OrderModel {
        OrderModel { product_id: self.product_id@, quantity: self.quantity }
    }
}

/// The order that a line `"<product>: <quantity>"` describes.
pub open spec fn order_of_line(line: Seq<char>) -> OrderModel {
    OrderModel { product_id: first_field(line), quantity: parsed_usize(second_field(line)) }
}

/// Reads the two fields of a line `"<product>: <quantity>"`: the product, and
/// the quantity when it is a well-formed `usize`.
pub fn split_line(line: &str) -> (fields: (String, Option<usize>))
    requires
        has_separator(line@),
    ensures
        fields.0@ == first_field(line@),
        fields.1 == (if parses_as_usize(second_field(line@)) {
            Some(parsed_usize(second_field(line@)))
        } else {
            None
        }),
{
    let sep = find_separator(line, 0);
    let start = sep + 2;
    let end = find_separator(line, start);
    let product = String::from_str(line.substring_char(0, sep));
    let quantity = parse_usize(line.substring_char(start, end));
    (product, quantity)
}

impl Order {
    /// An order for `quantity` units of `product_id`.
    pub fn new(product_id: String, quantity: usize) -> (order: Self)
        ensures
            order@ == (OrderModel { product_id: product_id@, quantity }),
    {
        Order { product_id, quantity }
    }

    /// Reads an order from a line `"<product>: <quantity>"`. The line must
    /// hold a `": "`; the text after it, up to any further `": "`, must be a
    /// `usize`, else the result is `ShopError::ParseOrder`.
    pub fn parse_order(line: String) -> (result: Result<Self, ShopError>)
        requires
            has_separator(line@),
        ensures
            match result {
                Ok(order) => parses_as_usize(second_field(line@)) && order@ == order_of_line(
                    line@,
                ),
                Err(e) => {
                    &&& !parses_as_usize(second_field(line@))
                    &&& e matches ShopError::ParseOrder(msg) && msg@ == "Fail to parse quantity"@
                },
            },
    {
        let (product_id, quantity) = split_line(line.as_str());
        match quantity {
            Some(quantity) => Ok(Order::new(product_id, quantity)),
            None => Err(ShopError::ParseOrder(String::from_str("Fail to parse quantity"))),
        }
    }

    /// The product ordered.
    pub fn get_product_id(&self) -> (product_id: String)
        ensures
            product_id@ == self@.product_id,
    {
        self.product_id.clone()
    }

    /// The number of units ordered.
    pub fn get_quantity(&self) -> (quantity: usize)
        ensures
            quantity == self@.quantity,
    {
        self.quantity
    }
}

} // verus!
