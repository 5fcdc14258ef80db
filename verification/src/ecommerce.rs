use std::collections::HashMap;
use vstd::prelude::*;

use crate::delivery::random_below;
use crate::ecommerce_error::EcommerceError;
use crate::order::{order_of_line, Order};
use crate::text::{has_separator, parses_as_usize, second_field};

verus! {

broadcast use vstd::std_specs::hash::group_hash_axioms;

/// The shop an e-commerce order goes to, and whether the client already has
/// a connection to it.
#[derive(Debug, PartialEq, Eq)]
pub enum NearestShop {
    Connected(usize),
    Missing(usize),
}

/// Reads an e-commerce order from a line `"<product>: <quantity>"` of the
/// orders file; a quantity that is not a `usize` is a `ParseOrder` error.
pub fn parse_ecommerce_order(line: String) -> (result: Result<Order, EcommerceError>)
    requires
        has_separator(line@),
    ensures
        match result {
            Ok(order) => parses_as_usize(second_field(line@)) && order@ == order_of_line(
                line@,
            ),
            Err(e) => {
                &&& !parses_as_usize(second_field(line@))
                &&& e matches EcommerceError::ParseOrder(msg) && msg@
                    == "Fail to parse ecommerce order"@
            },
        },
{
    match Order::parse_order(line) {
        Ok(order) => Ok(order),
        Err(_) => Err(
            EcommerceError::ParseOrder(String::from_str("Fail to parse ecommerce order")),
        ),
    }
}

/// The e-commerce client: the connections it holds to shops, by shop number.
pub struct Ecommerce<C> {
    shop_connections: HashMap<usize, C>,
}

impl<C> Ecommerce<C> {
    /// The connections held, by shop number.
    pub closed spec fn connections(&self) -> Map<usize, C> {
        self.shop_connections@
    }

    /// A client with no connection.
    pub fn new() -> (ecommerce: Self)
        ensures
            ecommerce.connections() == Map::<usize, C>::empty(),
    {
        Ecommerce { shop_connections: HashMap::new() }
    }

    /// Whether shop `shop_id` already has a connection.
    pub fn shop_choice(&self, shop_id: usize) -> (choice: NearestShop)
        ensures
            self.connections().contains_key(shop_id) ==> choice == NearestShop::Connected(shop_id),
            !self.connections().contains_key(shop_id) ==> choice == NearestShop::Missing(shop_id),
    {
        if self.shop_connections.contains_key(&shop_id) {
            NearestShop::Connected(shop_id)
        } else {
            NearestShop::Missing(shop_id)
        }
    }

    /// Picks at random one of the `shop_amount` shops for the next order, and
    /// says whether a connection to it is already held.
    pub fn get_nearest_shop(&self, shop_amount: usize) -> (choice: NearestShop)
        requires
            shop_amount > 0,
        ensures
            match choice {
                NearestShop::Connected(id) => id < shop_amount && self.connections().contains_key(
                    id,
                ),
                NearestShop::Missing(id) => id < shop_amount && !self.connections().contains_key(
                    id,
                ),
            },
    {
        let shop_id = random_below(shop_amount);
        self.shop_choice(shop_id)
    }

    /// Keeps `connection` as the connection to shop `shop_id`.
    pub fn add_connection(&mut self, shop_id: usize, connection: C)
        ensures
            final(self).connections() == old(self).connections().insert(shop_id, connection),
    {
        self.shop_connections.insert(shop_id, connection);
    }

    /// The connection to shop `shop_id`, if one is held.
    pub fn connection(&self, shop_id: usize) -> (connection: Option<&C>)
        ensures
            match connection {
                Some(c) => self.connections().contains_key(shop_id) && *c == self.connections()[shop_id],
                None => !self.connections().contains_key(shop_id),
            },
    {
        self.shop_connections.get(&shop_id)
    }
}

impl<C> Default for Ecommerce<C> {
    fn default() -> (ecommerce: Self)
        ensures
            ecommerce.connections() == Map::<usize, C>::empty(),
    {
        Self::new()
    }
}

} // verus!
