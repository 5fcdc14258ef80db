use shop::incomplete_order::IncompleteOrder;
use shop::inventory::{EcommerceOrderOutcome, Inventory};
use shop::offline_shop::OfflineShop;
use shop::order::Order;
use shop::ring::{join_message, next_id, prev_id, JoinMessage, RingAction, RingNode};
use shop::syn::Syn;
use shop::token::Token;

fn stock() -> Inventory {
    let lines = vec!["product1: 10".to_string(), "product2: 5".to_string()];
    Inventory::from_stock_lines(&lines, 1)
}

/// Runs one token round of `node`: the orders of other shops go to the
/// inventory, and what it cannot serve joins `pending`, which rides on with
/// the token.
fn token_round(node: &mut RingNode, inventory: &mut Inventory, token: Token, mut pending: Vec<IncompleteOrder>) {
    let round = node.on_token(token);
    for order in round.to_inventory {
        if let EcommerceOrderOutcome::Forward(incomplete) =
            inventory.process_ecommerce_order(order.get_shop_id(), order.to_order())
        {
            pending.push(incomplete);
        }
    }
    node.refill_token(pending);
}

#[test]
fn test_syn_message_when_a_shop_is_created() {
    match join_message(0, 1) {
        JoinMessage::Join(syn) => assert_eq!(syn, Syn::new(0)),
        JoinMessage::StartToken(_) => panic!("another shop is alive"),
    }
    match join_message(3, 3) {
        JoinMessage::StartToken(token) => assert_eq!(token, Token::new(0)),
        JoinMessage::Join(_) => panic!("the shop is alone"),
    }
}

#[test]
fn test_token_update_without_unsolved_sales() {
    let mut node = RingNode::new(2, 4);
    let mut inventory = stock();
    token_round(&mut node, &mut inventory, Token::new(1), vec![]);
    assert_eq!(node.last_token(), &Token::new(2));
}

#[test]
fn test_reconection() {
    let node = RingNode::new(5, 7);
    let lost = node.on_prev_lost();
    assert_eq!(lost.notice, OfflineShop::new(4, 5));
    assert_eq!(lost.action, RingAction::Forward(Some(5)));
}

#[test]
fn test_token_update_with_solvable_sales() {
    let mut node = RingNode::new(8, 10);
    let mut inventory = stock();
    let mut token = Token::new(1);
    token.set_incomplete_orders(vec![IncompleteOrder::new(0, "product1".to_string(), 2)]);
    token_round(&mut node, &mut inventory, token, vec![]);
    assert_eq!(node.last_token(), &Token::new(2));
    assert_eq!(inventory.ask_for_locked_product(&"product1".to_string()), 2);
}

#[test]
fn test_token_update_with_solvable_and_unsolvable_sales() {
    let mut node = RingNode::new(11, 13);
    let mut inventory = stock();
    let mut token = Token::new(1);
    token.set_incomplete_orders(vec![
        IncompleteOrder::new(0, "product1".to_string(), 2),
        IncompleteOrder::new(0, "product1000".to_string(), 2),
    ]);
    token_round(&mut node, &mut inventory, token, vec![]);
    let mut new_token = Token::new(2);
    new_token.set_incomplete_orders(vec![IncompleteOrder::new(0, "product1000".to_string(), 2)]);
    assert_eq!(node.last_token(), &new_token);
}

#[test]
fn test_token_update_with_unsolved_ecommerce_sale() {
    let mut node = RingNode::new(14, 16);
    let mut inventory = stock();
    let mut pending = vec![];
    if let EcommerceOrderOutcome::Forward(incomplete) =
        inventory.process_ecommerce_order(1, Order::new("product1000".to_string(), 2))
    {
        pending.push(incomplete);
    }
    token_round(&mut node, &mut inventory, Token::new(1), pending);
    let mut new_token = Token::new(2);
    new_token.set_incomplete_orders(vec![IncompleteOrder::new(1, "product1000".to_string(), 2)]);
    assert_eq!(node.last_token(), &new_token);
}

#[test]
fn test_token_update_with_solved_ecommerce_sale() {
    let mut node = RingNode::new(16, 18);
    let mut inventory = stock();
    let mut pending = vec![];
    if let EcommerceOrderOutcome::Forward(incomplete) =
        inventory.process_ecommerce_order(1, Order::new("product1".to_string(), 2))
    {
        pending.push(incomplete);
    }
    token_round(&mut node, &mut inventory, Token::new(1), pending);
    assert_eq!(node.last_token(), &Token::new(2));
}

#[test]
fn test_token_update_with_unsolvable_sales() {
    let mut node = RingNode::new(19, 21);
    let mut inventory = stock();
    let mut token = Token::new(1);
    token.set_incomplete_orders(vec![IncompleteOrder::new(0, "product1000".to_string(), 2)]);
    token_round(&mut node, &mut inventory, token, vec![]);
    let mut new_token = Token::new(2);
    new_token.set_incomplete_orders(vec![IncompleteOrder::new(0, "product1000".to_string(), 2)]);
    assert_eq!(node.last_token(), &new_token);
}

#[test]
fn orders_back_home_are_unsolvable() {
    let mut node = RingNode::new(3, 5);
    let mut token = Token::new(9);
    token.set_incomplete_orders(vec![
        IncompleteOrder::new(3, "a".to_string(), 1),
        IncompleteOrder::new(1, "b".to_string(), 2),
        IncompleteOrder::new(3, "c".to_string(), 3),
    ]);
    let round = node.on_token(token);
    assert_eq!(round.unsolvable, vec![
        IncompleteOrder::new(3, "a".to_string(), 1),
        IncompleteOrder::new(3, "c".to_string(), 3),
    ]);
    assert_eq!(round.to_inventory, vec![IncompleteOrder::new(1, "b".to_string(), 2)]);
    assert_eq!(node.last_token().get_id(), 10);
    assert_eq!(node.last_token().get_incomplete_orders().len(), 3);
}

#[test]
fn ring_neighbours() {
    assert_eq!(next_id(0, 3), 1);
    assert_eq!(next_id(2, 3), 0);
    assert_eq!(prev_id(0, 3), 2);
    assert_eq!(prev_id(2, 3), 1);
    for total in 1..6 {
        for id in 0..total {
            assert_eq!(next_id(prev_id(id, total), total), id);
            assert_eq!(prev_id(next_id(id, total), total), id);
        }
    }
    let node = RingNode::new(4, 5);
    assert_eq!(node.get_next_shop_id(), 0);
    assert_eq!(node.prev_id(), 3);
    assert_eq!(node.get_id(), 4);
    assert_eq!(node.get_total_shops(), 5);
}

#[test]
fn joining_shop_right_after_gets_the_token() {
    let node = RingNode::new(1, 4);
    assert_eq!(node.on_syn(&Syn::new(2)), RingAction::SendTokenTo(2));
    assert_eq!(node.on_syn(&Syn::new(3)), RingAction::Forward(Some(3)));
}

#[test]
fn offline_next_is_replaced() {
    let mut node = RingNode::new(1, 4);
    assert_eq!(node.on_offline_shop(&OfflineShop::new(2, 3)), RingAction::SendTokenTo(3));
    assert_eq!(node.on_offline_shop(&OfflineShop::new(0, 1)), RingAction::Forward(None));
    node.connected_to(3);
    assert_eq!(node.get_next_shop_id(), 3);
    assert_eq!(node.on_offline_shop(&OfflineShop::new(3, 0)), RingAction::SendTokenTo(0));
}

#[test]
fn shop_alone_links_to_itself() {
    let node = RingNode::new(0, 2);
    let lost = node.on_prev_lost();
    assert_eq!(lost.notice, OfflineShop::new(1, 0));
    assert_eq!(lost.action, RingAction::SendTokenTo(0));
}
