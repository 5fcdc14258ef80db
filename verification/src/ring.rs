use vstd::arithmetic::div_mod::{lemma_mod_add_multiples_vanish, lemma_mod_self_0, lemma_small_mod};
use vstd::prelude::*;

use crate::incomplete_order::{IncompleteOrder, IncompleteOrderModel};
use crate::offline_shop::{OfflineShop, OfflineShopModel};
use crate::syn::Syn;
use crate::token::{order_models, Token, TokenModel};

verus! {

/// The shop after `id` on a ring of `total` shops.
pub open spec fn next_of(id: int, total: int) -> int {
    (id + 1) % total
}

/// The shop before `id` on a ring of `total` shops.
pub open spec fn prev_of(id: int, total: int) -> int {
    (total - 1 + id) % total
}

/// The shop after `id` on a ring of `total_shops` shops.
pub fn next_id(id: usize, total_shops: usize) -> (next: usize)
    requires
        total_shops > 0,
        id < usize::MAX,
    ensures
        next == next_of(id as int, total_shops as int),
        next < total_shops,
{
    (id + 1) % total_shops
}

/// The shop before `id` on a ring of `total_shops` shops.
pub fn prev_id(id: usize, total_shops: usize) -> (prev: usize)
    requires
        total_shops > 0,
        total_shops - 1 + id <= usize::MAX,
    ensures
        prev == prev_of(id as int, total_shops as int),
        prev < total_shops,
{
    (total_shops - 1 + id) % total_shops
}

/// On a ring of `total` shops, the shop after the one before `id` is `id`,
/// and the shop before the one after `id` is `id`.
pub proof fn lemma_next_prev_inverse(id: int, total: int)
    requires
        0 <= id < total,
    ensures
        0 <= next_of(id, total) < total,
        0 <= prev_of(id, total) < total,
        next_of(prev_of(id, total), total) == id,
        prev_of(next_of(id, total), total) == id,
{
    let prev = prev_of(id, total);
    let next = next_of(id, total);
    if id == 0 {
        lemma_small_mod((total - 1) as nat, total as nat);
        lemma_mod_self_0(total);
        assert(prev == total - 1);
    } else {
        lemma_mod_add_multiples_vanish(id - 1, total);
        lemma_small_mod((id - 1) as nat, total as nat);
        assert(prev == id - 1);
        lemma_small_mod(id as nat, total as nat);
    }
    if id + 1 == total {
        lemma_mod_self_0(total);
        assert(next == 0);
        lemma_small_mod((total - 1) as nat, total as nat);
    } else {
        lemma_small_mod((id + 1) as nat, total as nat);
        assert(next == id + 1);
        lemma_mod_add_multiples_vanish(id, total);
        lemma_small_mod(id as nat, total as nat);
        assert(total - 1 + next == total + id);
    }
}

/// On a ring of `total` shops numbered `0..total`, the shop after `id` is
/// `id + 1`, except that the last shop is followed by shop 0; the shop before
/// `id` is `id - 1`, except that shop 0 is preceded by the last shop.
pub proof fn lemma_ring_order(id: int, total: int)
    requires
        0 <= id < total,
    ensures
        next_of(id, total) == (if id + 1 < total {
            id + 1
        } else {
            0
        }),
        prev_of(id, total) == (if id > 0 {
            id - 1
        } else {
            total - 1
        }),
{
    if id + 1 < total {
        lemma_small_mod((id + 1) as nat, total as nat);
    } else {
        lemma_mod_self_0(total);
    }
    if id > 0 {
        lemma_mod_add_multiples_vanish(id - 1, total);
        lemma_small_mod((id - 1) as nat, total as nat);
    } else {
        lemma_small_mod((total - 1) as nat, total as nat);
    }
}

/// The incomplete orders of `orders` that belong to a shop other than `id`,
/// in order.
pub open spec fn foreign_orders(orders: Seq<IncompleteOrderModel>, id: usize) -> Seq<
    IncompleteOrderModel,
>
    decreases orders.len(),
{
    if orders.len() == 0 {
        Seq::empty()
    } else {
        let before = foreign_orders(orders.drop_last(), id);
        if orders.last().shop_id != id {
            before.push(orders.last())
        } else {
            before
        }
    }
}

/// The incomplete orders of `orders` that belong to shop `id`, in order.
pub open spec fn own_orders(orders: Seq<IncompleteOrderModel>, id: usize) -> Seq<
    IncompleteOrderModel,
>
    decreases orders.len(),
{
    if orders.len() == 0 {
        Seq::empty()
    } else {
        let before = own_orders(orders.drop_last(), id);
        if orders.last().shop_id == id {
            before.push(orders.last())
        } else {
            before
        }
    }
}

/// Every incomplete order on the token is either handed to the inventory (it
/// belongs to another shop) or reported as unsolvable (it came back to its
/// own shop), never both and never neither.
pub proof fn lemma_token_orders_split(orders: Seq<IncompleteOrderModel>, id: usize)
    ensures
        foreign_orders(orders, id).len() + own_orders(orders, id).len() == orders.len(),
        forall|i: int|
            0 <= i < foreign_orders(orders, id).len() ==> (#[trigger] foreign_orders(
                orders,
                id,
            )[i]).shop_id != id,
        forall|i: int|
            0 <= i < own_orders(orders, id).len() ==> (#[trigger] own_orders(orders, id)[i]).shop_id
                == id,
    decreases orders.len(),
{
    if orders.len() > 0 {
        lemma_token_orders_split(orders.drop_last(), id);
    }
}

/// The orders a token round hands to the inventory are exactly the token's
/// orders of other shops, each unchanged and in token order; those reported
/// unsolved are exactly the token's orders of this shop, likewise.
pub proof fn lemma_token_round_filters(orders: Seq<IncompleteOrderModel>, id: usize)
    ensures
        foreign_orders(orders, id) == orders.filter(|o: IncompleteOrderModel| o.shop_id != id),
        own_orders(orders, id) == orders.filter(|o: IncompleteOrderModel| o.shop_id == id),
    decreases orders.len(),
{
    reveal_with_fuel(Seq::<_>::filter, 1);
    if orders.len() > 0 {
        lemma_token_round_filters(orders.drop_last(), id);
    }
}

/// What a shop sends the next shop when it joins the ring: the first token
/// when it found no other shop alive, otherwise its join request.
#[derive(Debug)]
pub enum JoinMessage {
    StartToken(Token),
    Join(Syn),
}

/// The message a shop `id` that found `found_next` alive after it sends when
/// joining the ring.
pub fn join_message(id: usize, found_next: usize) -> (msg: JoinMessage)
    ensures
        id == found_next ==> (msg matches JoinMessage::StartToken(t) && t@.id == 0
            && t@.incomplete_orders.len() == 0),
        id != found_next ==> (msg matches JoinMessage::Join(s) && s@ == id),
{
    if id == found_next {
        JoinMessage::StartToken(Token::new(0))
    } else {
        JoinMessage::Join(Syn::new(id))
    }
}

/// What a shop does with the link to the next shop.
#[derive(Debug, PartialEq, Eq)]
pub enum RingAction {
    /// Connect to this shop, make it the next one, and send it the last token.
    SendTokenTo(usize),
    /// Pass the message on to the next shop; if that fails, connect to the
    /// shop given here (if any) and send it the last token.
    Forward(Option<usize>),
}

/// What a shop does when its predecessor stops answering: the notice to
/// pass on, and how to pass it.
#[derive(Debug)]
pub struct PrevLost {
    pub notice: OfflineShop,
    pub action: RingAction,
}

/// The token round of a shop: the incomplete orders that go to its inventory,
/// and those that came back unsolved.
#[derive(Debug)]
pub struct TokenRound {
    pub to_inventory: Vec<IncompleteOrder>,
    pub unsolvable: Vec<IncompleteOrder>,
}

/// A shop's place on the ring: who it is, how many shops the ring has, which
/// shop it sends to, and the last token it held.
#[derive(Debug)]
pub struct RingNode {
    id: usize,
    total_shops: usize,
    next_shop_id: usize,
    last_token: Token,
}

impl RingNode {
    /// The ring has at least one shop and this shop has a successor number.
    pub closed spec fn wf(&self) -> bool {
        &&& self.total_shops > 0
        &&& self.id < usize::MAX
    }

    /// The number of the shop before this one can be computed in a `usize`.
    pub closed spec fn has_prev(&self) -> bool {
        self.total_shops - 1 + self.id <= usize::MAX
    }

    /// This shop.
    pub closed spec fn id(&self) -> usize {
        self.id
    }

    /// The number of shops on the ring.
    pub closed spec fn total(&self) -> usize {
        self.total_shops
    }

    /// The shop this one sends to.
    pub closed spec fn next(&self) -> usize {
        self.next_shop_id
    }

    /// The last token this shop held.
    pub closed spec fn token(&self) -> TokenModel {
        self.last_token@
    }

    /// Shop `id` on a ring of `total_shops`: it sends to the shop after it and
    /// holds a blank token numbered 0.
    pub fn new(id: usize, total_shops: usize) -> (node: RingNode)
        requires
            total_shops > 0,
            id < usize::MAX,
        ensures
            node.wf(),
            node.has_prev() == (total_shops - 1 + id <= usize::MAX),
            node.id() == id,
            node.total() == total_shops,
            node.next() == next_of(id as int, total_shops as int),
            node.token().id == 0,
            node.token().incomplete_orders.len() == 0,
    {
        RingNode {
            id,
            total_shops,
            next_shop_id: next_id(id, total_shops),
            last_token: Token::new(0),
        }
    }

    /// This shop.
    pub fn get_id(&self) -> (id: usize)
        ensures
            id == self.id(),
    {
        self.id
    }

    /// The number of shops on the ring.
    pub fn get_total_shops(&self) -> (total: usize)
        ensures
            total == self.total(),
    {
        self.total_shops
    }

    /// The shop this one sends to.
    pub fn get_next_shop_id(&self) -> (next: usize)
        ensures
            next == self.next(),
    {
        self.next_shop_id
    }

    /// The last token this shop held.
    pub fn last_token(&self) -> (token: &Token)
        ensures
            token@ == self.token(),
    {
        &self.last_token
    }

    /// The shop before this one.
    pub fn prev_id(&self) -> (prev: usize)
        requires
            self.wf(),
            self.has_prev(),
        ensures
            prev == prev_of(self.id() as int, self.total() as int),
    {
        prev_id(self.id, self.total_shops)
    }

    /// This shop is now linked to `target`.
    pub fn connected_to(&mut self, target: usize)
        ensures
            final(self).next() == target,
            final(self).id() == old(self).id(),
            final(self).total() == old(self).total(),
            final(self).token() == old(self).token(),
            old(self).wf() ==> final(self).wf(),
            final(self).has_prev() == old(self).has_prev(),
    {
        self.next_shop_id = target;
    }

    /// The predecessor stopped answering. The notice names the predecessor as
    /// gone and this shop as its replacement. When the predecessor was also
    /// the next shop, this shop is alone and links to itself; otherwise the
    /// notice goes on, and if that fails this shop links to itself.
    pub fn on_prev_lost(&self) -> (lost: PrevLost)
        requires
            self.wf(),
            self.has_prev(),
        ensures
            lost.notice@ == (OfflineShopModel {
                offline_id: prev_of(self.id() as int, self.total() as int) as usize,
                replace_id: self.id(),
            }),
            prev_of(self.id() as int, self.total() as int) == self.next() ==> lost.action
                == RingAction::SendTokenTo(self.id()),
            prev_of(self.id() as int, self.total() as int) != self.next() ==> lost.action
                == RingAction::Forward(Some(self.id())),
    {
        let prev = self.prev_id();
        let notice = OfflineShop::new(prev, self.id);
        let action = if prev == self.next_shop_id {
            RingAction::SendTokenTo(self.id)
        } else {
            RingAction::Forward(Some(self.id))
        };
        PrevLost { notice, action }
    }

    /// A join request arrived. When the joining shop is the one right after
    /// this shop on the ring, this shop links to it and hands it the token;
    /// otherwise the request goes on, and if that fails this shop links to the
    /// joining shop.
    pub fn on_syn(&self, syn: &Syn) -> (action: RingAction)
        requires
            self.wf(),
        ensures
            syn@ == next_of(self.id() as int, self.total() as int) ==> action
                == RingAction::SendTokenTo(syn@),
            syn@ != next_of(self.id() as int, self.total() as int) ==> action == RingAction::Forward(
                Some(syn@),
            ),
    {
        let joining = syn.get_id();
        if joining == next_id(self.id, self.total_shops) {
            RingAction::SendTokenTo(joining)
        } else {
            RingAction::Forward(Some(joining))
        }
    }

    /// A notice that a shop went offline arrived. When the lost shop is the
    /// one this shop sends to, this shop links to its replacement and hands it
    /// the token; otherwise the notice goes on.
    pub fn on_offline_shop(&self, notice: &OfflineShop) -> (action: RingAction)
        ensures
            notice@.offline_id == self.next() ==> action == RingAction::SendTokenTo(
                notice@.replace_id,
            ),
            notice@.offline_id != self.next() ==> action == RingAction::Forward(None),
    {
        if notice.get_offline_id() == self.next_shop_id {
            RingAction::SendTokenTo(notice.get_replace_id())
        } else {
            RingAction::Forward(None)
        }
    }

    /// The token arrived: it is counted once more and kept as the last token;
    /// its incomplete orders of other shops go to the inventory, and those of
    /// this shop came back around the ring unsolved.
    pub fn on_token(&mut self, token: Token) -> (round: TokenRound)
        requires
            token@.id < usize::MAX,
        ensures
            final(self).token().id == token@.id + 1,
            final(self).token().incomplete_orders == token@.incomplete_orders,
            final(self).id() == old(self).id(),
            final(self).total() == old(self).total(),
            final(self).next() == old(self).next(),
            old(self).wf() ==> final(self).wf(),
            final(self).has_prev() == old(self).has_prev(),
            order_models(round.to_inventory@) == foreign_orders(
                token@.incomplete_orders,
                old(self).id(),
            ),
            order_models(round.unsolvable@) == own_orders(token@.incomplete_orders, old(self).id()),
    {
        let mut token = token;
        token.increment_id();
        self.last_token = token;
        let orders = self.last_token.get_incomplete_orders();
        let ghost models = order_models(orders@);
        let mut to_inventory: Vec<IncompleteOrder> = Vec::new();
        let mut unsolvable: Vec<IncompleteOrder> = Vec::new();
        let mut i: usize = 0;
        while i < orders.len()
            invariant
                i <= orders.len(),
                models == order_models(orders@),
                order_models(to_inventory@) == foreign_orders(models.take(i as int), self.id),
                order_models(unsolvable@) == own_orders(models.take(i as int), self.id),
            decreases orders.len() - i,
        {
            assert(models.take(i + 1).drop_last() =~= models.take(i as int));
            assert(models.take(i + 1).last() == orders@[i as int]@);
            let order = IncompleteOrder::new(
                orders[i].get_shop_id(),
                orders[i].get_product_id().clone(),
                orders[i].get_quantity(),
            );
            if order.get_shop_id() == self.id {
                unsolvable.push(order);
            } else {
                to_inventory.push(order);
            }
            assert(order_models(to_inventory@) =~= foreign_orders(models.take(i + 1), self.id));
            assert(order_models(unsolvable@) =~= own_orders(models.take(i + 1), self.id));
            i = i + 1;
        }
        assert(models.take(orders.len() as int) =~= models);
        TokenRound { to_inventory, unsolvable }
    }

    /// The token leaves with the incomplete orders gathered during this round.
    pub fn refill_token(&mut self, pending: Vec<IncompleteOrder>)
        ensures
            final(self).token().id == old(self).token().id,
            final(self).token().incomplete_orders == order_models(pending@),
            final(self).id() == old(self).id(),
            final(self).total() == old(self).total(),
            final(self).next() == old(self).next(),
            old(self).wf() ==> final(self).wf(),
            final(self).has_prev() == old(self).has_prev(),
    {
        self.last_token.set_incomplete_orders(pending);
    }
}

} // verus!
