use vstd::prelude::*;

use crate::incomplete_order::{IncompleteOrder, IncompleteOrderModel};

verus! {

/// The models of a list of incomplete orders.
pub open spec fn order_models(orders: Seq<IncompleteOrder>) -> Seq<IncompleteOrderModel> {
    orders.map_values(|o: IncompleteOrder| o@)
}

/// What the token carries: how many times it was passed on, and the orders
/// that still look for a shop.
pub struct TokenModel {
    pub id: usize,
    pub incomplete_orders: Seq<IncompleteOrderModel>,
}

/// The token that circulates around the ring of shops.
#[derive(Debug, PartialEq, Eq)]
pub struct Token {
    id: usize,
    incomplete_orders: Vec<IncompleteOrder>,
}

impl View for Token {
    type V = TokenModel;

    closed spec fn view(&self) -> TokenModel {
        TokenModel { id: self.id, incomplete_orders: order_models(self.incomplete_orders@) }
    }
}

impl Token {
    /// A token numbered `id` that carries no orders.
    pub fn new(id: usize) -> (token: Token)
        ensures
            token@.id == id,
            token@.incomplete_orders == Seq::<IncompleteOrderModel>::empty(),
    {
        let token = Token { id, incomplete_orders: Vec::new() };
        assert(token@.incomplete_orders =~= Seq::<IncompleteOrderModel>::empty());
        token
    }

    /// The number of the token.
    pub fn get_id(&self) -> (id: usize)
        ensures
            id == self@.id,
    {
        self.id
    }

    /// Counts one more pass of the token.
    pub fn increment_id(&mut self)
        requires
            old(self)@.id < usize::MAX,
        ensures
            final(self)@.id == old(self)@.id + 1,
            final(self)@.incomplete_orders == old(self)@.incomplete_orders,
    {
        self.id = self.id + 1;
    }

    /// The orders the token carries.
    pub fn get_incomplete_orders(&self) -> (orders: &Vec<IncompleteOrder>)
        ensures
            order_models(orders@) == self@.incomplete_orders,
    {
        &self.incomplete_orders
    }

    /// Replaces the orders the token carries.
    pub fn set_incomplete_orders(&mut self, incomplete_orders: Vec<IncompleteOrder>)
        ensures
            final(self)@.id == old(self)@.id,
            final(self)@.incomplete_orders == order_models(incomplete_orders@),
    {
        self.incomplete_orders = incomplete_orders;
    }
}

} // verus!
