use shop::delivery::delivery_time;
use shop::incomplete_order::IncompleteOrder;
use shop::inventory::{EcommerceOrderOutcome, Inventory};
use shop::order::Order;
use shop::shop_error::ShopError;

fn item(name: &str) -> String {
    name.to_string()
}

fn inventory_with(product: &str, quantity: usize) -> Inventory {
    let mut inventory = Inventory::new(0);
    inventory.insert_item(item(product), quantity);
    inventory
}

fn inventory_with_locked(product: &str, quantity: usize) -> Inventory {
    let mut inventory = inventory_with(product, quantity);
    inventory.lock_product(&item(product), quantity).unwrap();
    inventory
}

#[test]
fn test_process_shop_order() {
    let mut inventory = inventory_with("item1", 10);
    assert!(inventory.process_shop_order(&Order::new(item("item1"), 3)));
    let quantity = inventory.ask_for_product(&item("item1"));
    assert_eq!(quantity, 7);
}

#[test]
fn test_process_shop_order_invalid_quantity() {
    let mut inventory = inventory_with("item1", 10);
    assert!(!inventory.process_shop_order(&Order::new(item("item1"), 15)));
    let quantity = inventory.ask_for_product(&item("item1"));
    assert_eq!(quantity, 10);
}

#[test]
fn test_process_ecommerce_order_valid_product() {
    let mut inventory = inventory_with("item1", 10);
    let outcome = inventory.process_ecommerce_order(0, Order::new(item("item1"), 3));
    assert!(matches!(outcome, EcommerceOrderOutcome::Deliver(_)));
    assert_eq!(inventory.ask_for_product(&item("item1")), 7);
    assert_eq!(inventory.ask_for_locked_product(&item("item1")), 3);
}

#[test]
fn test_process_ecommerce_order_invalid_product() {
    let mut inventory = inventory_with("item1", 10);
    let outcome = inventory.process_ecommerce_order(0, Order::new(item("item1"), 15));
    match outcome {
        EcommerceOrderOutcome::Forward(order) => {
            assert_eq!(order, IncompleteOrder::new(0, item("item1"), 15));
        }
        EcommerceOrderOutcome::Deliver(_) => panic!("the order cannot be served"),
    }
    assert_eq!(inventory.ask_for_product(&item("item1")), 10);
    assert_eq!(inventory.ask_for_locked_product(&item("item1")), 0);
}

#[test]
fn test_succesfull_delivery_valid_product() {
    let mut inventory = inventory_with_locked("item1", 10);
    assert!(inventory.successful_delivery(&Order::new(item("item1"), 5)).is_ok());
    assert_eq!(inventory.ask_for_product(&item("item1")), 0);
    assert_eq!(inventory.ask_for_locked_product(&item("item1")), 5);
}

#[test]
fn test_succesfull_delivery_invalid_product() {
    let mut inventory = inventory_with_locked("item1", 10);
    let result = inventory.successful_delivery(&Order::new(item("item1"), 15));
    assert_eq!(
        result,
        Err(ShopError::InsufficientStock(
            "Se reservo un producto y ahora no esta".to_string()
        ))
    );
    assert_eq!(inventory.ask_for_product(&item("item1")), 0);
    assert_eq!(inventory.ask_for_locked_product(&item("item1")), 10);
}

#[test]
fn test_delivery_failed_valid_product() {
    let mut inventory = inventory_with_locked("item1", 10);
    assert!(inventory.delivery_failed(&Order::new(item("item1"), 5)).is_ok());
    assert_eq!(inventory.ask_for_product(&item("item1")), 5);
    assert_eq!(inventory.ask_for_locked_product(&item("item1")), 5);
}

#[test]
fn test_delivery_failed_invalid_product() {
    let mut inventory = inventory_with_locked("item1", 10);
    let result = inventory.delivery_failed(&Order::new(item("item1"), 15));
    assert_eq!(
        result,
        Err(ShopError::InsufficientStock("Insufficient stock".to_string()))
    );
    assert_eq!(inventory.ask_for_product(&item("item1")), 0);
    assert_eq!(inventory.ask_for_locked_product(&item("item1")), 10);
}

#[test]
fn test_proccess_ecommerce_order_with_deliverer_0_probability_of_succes() {
    let mut inventory = inventory_with("p1", 15);
    let outcome = inventory.process_ecommerce_order(0, Order::new(item("p1"), 3));
    let order = match outcome {
        EcommerceOrderOutcome::Deliver(deliver) => deliver.0,
        EcommerceOrderOutcome::Forward(_) => panic!("the order can be served"),
    };
    assert!(inventory.delivery_failed(&order).is_ok());
    assert_eq!(inventory.ask_for_product(&item("p1")), 15);
    assert_eq!(inventory.ask_for_locked_product(&item("p1")), 0);
}

#[test]
fn test_proccess_ecommerce_order_with_deliverer_1_probability_of_succes() {
    let mut inventory = inventory_with("p1", 15);
    let outcome = inventory.process_ecommerce_order(0, Order::new(item("p1"), 3));
    let order = match outcome {
        EcommerceOrderOutcome::Deliver(deliver) => deliver.0,
        EcommerceOrderOutcome::Forward(_) => panic!("the order can be served"),
    };
    assert_eq!(inventory.ask_for_product(&item("p1")), 12);
    assert_eq!(inventory.ask_for_locked_product(&item("p1")), 3);
    assert!(inventory.successful_delivery(&order).is_ok());
    assert_eq!(inventory.ask_for_product(&item("p1")), 12);
    assert_eq!(inventory.ask_for_locked_product(&item("p1")), 0);
}

#[test]
fn deduct_unknown_product_is_a_shortage() {
    let mut inventory = Inventory::new(3);
    assert_eq!(
        inventory.deduct_product(&item("nothing"), 0),
        Err(ShopError::InsufficientStock("Insufficient stock".to_string()))
    );
    assert_eq!(
        inventory.deduct_lock_product(&item("nothing"), 1),
        Err(ShopError::InsufficientStock(
            "Se reservo un producto y ahora no esta".to_string()
        ))
    );
    assert_eq!(inventory.get_shop_id(), 3);
}

#[test]
fn deduct_exact_quantity_removes_the_entry() {
    let mut inventory = inventory_with("a", 4);
    assert!(inventory.deduct_product(&item("a"), 4).is_ok());
    assert_eq!(inventory.items().len(), 0);
    assert!(inventory.deduct_product(&item("a"), 0).is_err());
}

#[test]
fn unlock_undoes_lock() {
    let mut inventory = inventory_with("a", 9);
    inventory.insert_item(item("b"), 2);
    inventory.lock_product(&item("a"), 4).unwrap();
    assert_eq!(inventory.ask_for_product(&item("a")), 5);
    assert_eq!(inventory.ask_for_locked_product(&item("a")), 4);
    inventory.unlock_product(&item("a"), 4).unwrap();
    assert_eq!(inventory.ask_for_product(&item("a")), 9);
    assert_eq!(inventory.ask_for_locked_product(&item("a")), 0);
    assert_eq!(inventory.ask_for_product(&item("b")), 2);
    assert_eq!(inventory.locked_items().len(), 0);
}

#[test]
fn lock_keeps_the_total_of_units() {
    let mut inventory = inventory_with("a", 9);
    inventory.lock_product(&item("a"), 2).unwrap();
    inventory.lock_product(&item("a"), 3).unwrap();
    let total = inventory.ask_for_product(&item("a")) + inventory.ask_for_locked_product(&item("a"));
    assert_eq!(total, 9);
    assert_eq!(inventory.ask_for_locked_product(&item("a")), 5);
}

#[test]
fn delivered_reservation_sells_like_the_counter() {
    let mut by_delivery = inventory_with("a", 9);
    by_delivery.lock_product(&item("a"), 6).unwrap();
    by_delivery.deduct_lock_product(&item("a"), 6).unwrap();
    let mut by_counter = inventory_with("a", 9);
    by_counter.deduct_product(&item("a"), 6).unwrap();
    assert_eq!(by_delivery.ask_for_product(&item("a")), by_counter.ask_for_product(&item("a")));
    assert_eq!(by_delivery.ask_for_locked_product(&item("a")), 0);
}

#[test]
fn stock_lines_skip_bad_quantities_and_keep_the_last_count() {
    let lines = vec![
        "product1: 10".to_string(),
        "product2: ten".to_string(),
        "product3: 4".to_string(),
        "product1: 12".to_string(),
        "product4: +5".to_string(),
        "product5: -5".to_string(),
    ];
    let inventory = Inventory::from_stock_lines(&lines, 1);
    assert_eq!(inventory.ask_for_product(&item("product1")), 12);
    assert_eq!(inventory.ask_for_product(&item("product2")), 0);
    assert_eq!(inventory.ask_for_product(&item("product3")), 4);
    assert_eq!(inventory.ask_for_product(&item("product4")), 5);
    assert_eq!(inventory.ask_for_product(&item("product5")), 0);
    assert_eq!(inventory.items().len(), 3);
    assert_eq!(inventory.locked_items().len(), 0);
    assert_eq!(inventory.get_shop_id(), 1);
}

#[test]
fn delivery_time_stays_below_the_bound() {
    assert_eq!(delivery_time(0), 0);
    assert_eq!(delivery_time(1), 0);
    for _ in 0..50 {
        assert!(delivery_time(15) < 15);
    }
}
