use vstd::prelude::*;

use crate::delivery::DeliverOrder;
use crate::incomplete_order::{IncompleteOrder, IncompleteOrderModel};
use crate::order::Order;
use crate::shop_error::ShopError;
use crate::stock::{added, can_add, can_take, quantity_of, taken, StockTable};
use crate::text::{first_field, has_separator, parsed_usize, parses_as_usize, second_field};

verus! {

/// `e` is a shortage error carrying the message `msg`.
pub open spec fn is_shortage(e: ShopError, msg: Seq<char>) -> bool {
    e matches ShopError::InsufficientStock(m) && m@ == msg
}

/// The stock a list of lines `"<product>: <quantity>"` describes, read in
/// order: a line whose quantity is not a `usize` is skipped, and a later line
/// for a product replaces an earlier one.
pub open spec fn stock_of_lines(lines: Seq<Seq<char>>) -> Map<Seq<char>, usize>
    decreases lines.len(),
{
    if lines.len() == 0 {
        Map::empty()
    } else {
        let before = stock_of_lines(lines.drop_last());
        let line = lines.last();
        if parses_as_usize(second_field(line)) {
            before.insert(first_field(line), parsed_usize(second_field(line)))
        } else {
            before
        }
    }
}

/// Reading stock lines one at a time: no lines give no stock, and one more
/// line whose quantity is a `usize` sets its product to that quantity, while a
/// line with a bad quantity changes nothing.
pub proof fn lemma_stock_of_lines_step(lines: Seq<Seq<char>>, line: Seq<char>)
    ensures
        stock_of_lines(Seq::<Seq<char>>::empty()) == Map::<Seq<char>, usize>::empty(),
        parses_as_usize(second_field(line)) ==> stock_of_lines(lines.push(line)) == stock_of_lines(
            lines,
        ).insert(first_field(line), parsed_usize(second_field(line))),
        !parses_as_usize(second_field(line)) ==> stock_of_lines(lines.push(line))
            == stock_of_lines(lines),
{
    assert(lines.push(line).drop_last() =~= lines);
}

/// The stock read from lines holds exactly the products of the lines whose
/// quantity is a `usize`, and each such product has the quantity of the last
/// such line that names it.
pub proof fn lemma_stock_of_lines_contents(lines: Seq<Seq<char>>)
    ensures
        forall|k: Seq<char>|
            #[trigger] stock_of_lines(lines).contains_key(k) <==> exists|i: int|
                0 <= i < lines.len() && parses_as_usize(second_field(lines[i])) && first_field(
                    lines[i],
                ) == k,
        forall|i: int|
            0 <= i < lines.len() && parses_as_usize(second_field(#[trigger] lines[i])) && (forall|
                j: int,
            |
                i < j < lines.len() && parses_as_usize(second_field(lines[j])) ==> first_field(
                    lines[j],
                ) != first_field(lines[i])) ==> stock_of_lines(lines)[first_field(lines[i])]
                == parsed_usize(second_field(lines[i])),
    decreases lines.len(),
{
    if lines.len() > 0 {
        let before = lines.drop_last();
        lemma_stock_of_lines_contents(before);
        let last = lines.last();
        let n = lines.len() - 1;
        assert forall|k: Seq<char>|
            #[trigger] stock_of_lines(lines).contains_key(k) <==> exists|i: int|
                0 <= i < lines.len() && parses_as_usize(second_field(lines[i])) && first_field(
                    lines[i],
                ) == k by {
            if stock_of_lines(lines).contains_key(k) {
                if parses_as_usize(second_field(last)) && first_field(last) == k {
                    assert(lines[n] == last);
                } else {
                    assert(stock_of_lines(before).contains_key(k));
                    let i = choose|i: int|
                        0 <= i < before.len() && parses_as_usize(second_field(before[i]))
                            && first_field(before[i]) == k;
                    assert(lines[i] == before[i]);
                }
            } else {
                assert forall|i: int|
                    0 <= i < lines.len() && parses_as_usize(
                        second_field(lines[i]),
                    ) implies first_field(lines[i]) != k by {
                    if i < n {
                        assert(lines[i] == before[i]);
                    }
                }
            }
        }
        assert forall|i: int|
            0 <= i < lines.len() && parses_as_usize(second_field(#[trigger] lines[i])) && (forall|
                j: int,
            |
                i < j < lines.len() && parses_as_usize(second_field(lines[j])) ==> first_field(
                    lines[j],
                ) != first_field(lines[i])) implies stock_of_lines(lines)[first_field(lines[i])]
            == parsed_usize(second_field(lines[i])) by {
            if i < n {
                assert(lines[i] == before[i]);
                assert forall|j: int|
                    i < j < before.len() && parses_as_usize(
                        second_field(before[j]),
                    ) implies first_field(before[j]) != first_field(before[i]) by {
                    assert(lines[j] == before[j]);
                }
                assert(before[i] == lines[i]);
                if parses_as_usize(second_field(last)) {
                    assert(lines[n] == last);
                }
            }
        }
    }
}

/// Taking `quantity` units of `product` lowers its count by exactly
/// `quantity` and leaves every other product's count as it was.
pub proof fn lemma_take_counts(
    ledger: Map<Seq<char>, usize>,
    product: Seq<char>,
    quantity: usize,
    other: Seq<char>,
)
    requires
        can_take(ledger, product, quantity),
    ensures
        quantity_of(taken(ledger, product, quantity), other) == if other == product {
            quantity_of(ledger, product) - quantity
        } else {
            quantity_of(ledger, other) as int
        },
{
}

/// Adding `quantity` units of `product` raises its count by exactly
/// `quantity` and leaves every other product's count as it was.
pub proof fn lemma_add_counts(
    ledger: Map<Seq<char>, usize>,
    product: Seq<char>,
    quantity: usize,
    other: Seq<char>,
)
    requires
        can_add(ledger, product, quantity),
    ensures
        quantity_of(added(ledger, product, quantity), other) == if other == product {
            quantity_of(ledger, product) + quantity
        } else {
            quantity_of(ledger, other) as int
        },
{
}

/// Reserving units moves them: for every product, the units on sale plus the
/// reserved units are the same before and after a successful reservation.
pub proof fn lemma_lock_conserves_units(
    available: Map<Seq<char>, usize>,
    locked: Map<Seq<char>, usize>,
    product: Seq<char>,
    quantity: usize,
    other: Seq<char>,
)
    requires
        can_take(available, product, quantity),
        can_add(locked, product, quantity),
    ensures
        quantity_of(taken(available, product, quantity), other) + quantity_of(
            added(locked, product, quantity),
            other,
        ) == quantity_of(available, other) + quantity_of(locked, other),
{
    lemma_take_counts(available, product, quantity, other);
    lemma_add_counts(locked, product, quantity, other);
}

/// A failed delivery undoes the reservation: unlocking what was just locked
/// succeeds, gives back exactly the ledger of units on sale, and gives back
/// every reserved count (the reserved ledger itself comes back too unless it
/// held an entry of zero units for the product).
pub proof fn lemma_unlock_undoes_lock(
    available: Map<Seq<char>, usize>,
    locked: Map<Seq<char>, usize>,
    product: Seq<char>,
    quantity: usize,
)
    requires
        can_take(available, product, quantity),
        can_add(locked, product, quantity),
    ensures
        can_take(added(locked, product, quantity), product, quantity),
        can_add(taken(available, product, quantity), product, quantity),
        added(taken(available, product, quantity), product, quantity) == available,
        forall|other: Seq<char>|
            quantity_of(taken(added(locked, product, quantity), product, quantity), other)
                == #[trigger] quantity_of(locked, other),
        !(locked.contains_key(product) && locked[product] == 0) ==> taken(
            added(locked, product, quantity),
            product,
            quantity,
        ) == locked,
{
    let a1 = taken(available, product, quantity);
    let l1 = added(locked, product, quantity);
    assert(added(a1, product, quantity) =~= available);
    assert forall|other: Seq<char>|
        quantity_of(taken(l1, product, quantity), other) == #[trigger] quantity_of(
            locked,
            other,
        ) by {
        lemma_add_counts(locked, product, quantity, other);
        lemma_take_counts(l1, product, quantity, other);
    }
    if !(locked.contains_key(product) && locked[product] == 0) {
        assert(taken(l1, product, quantity) =~= locked);
    }
}

/// An e-commerce order that is reserved and then delivered leaves the shop
/// as a sale over the counter would. Reserving leaves the units on sale at
/// `taken(available, ..)`, as a sale does; this lemma shows the other half:
/// releasing the delivered units succeeds and brings every reserved count
/// back to where it was.
pub proof fn lemma_delivered_reservation_is_sale(
    available: Map<Seq<char>, usize>,
    locked: Map<Seq<char>, usize>,
    product: Seq<char>,
    quantity: usize,
)
    requires
        can_take(available, product, quantity),
        can_add(locked, product, quantity),
    ensures
        can_take(added(locked, product, quantity), product, quantity),
        forall|other: Seq<char>|
            quantity_of(taken(added(locked, product, quantity), product, quantity), other)
                == #[trigger] quantity_of(locked, other),
{
    lemma_unlock_undoes_lock(available, locked, product, quantity);
}

/// What became of an e-commerce order: its units are reserved and it goes to
/// the deliverer, or the stock falls short and it goes on the token.
#[derive(Debug)]
pub enum EcommerceOrderOutcome {
    Deliver(DeliverOrder),
    Forward(IncompleteOrder),
}

/// The stock of one shop: the units on sale and the units reserved for
/// e-commerce orders that are out for delivery.
pub struct Inventory {
    items: StockTable,
    locked_items: StockTable,
    shop_id: usize,
}

impl Inventory {
    /// Both ledgers are well formed.
    pub closed spec fn wf(&self) -> bool {
        self.items.wf() && self.locked_items.wf()
    }

    /// The units on sale, per product.
    pub closed spec fn available(&self) -> Map<Seq<char>, usize> {
        self.items@
    }

    /// The units reserved for deliveries, per product.
    pub closed spec fn locked(&self) -> Map<Seq<char>, usize> {
        self.locked_items@
    }

    /// The shop this inventory belongs to.
    pub closed spec fn shop(&self) -> usize {
        self.shop_id
    }

    /// An empty inventory for shop `shop_id`.
    pub fn new(shop_id: usize) -> (inventory: Self)
        ensures
            inventory.wf(),
            inventory.available() == Map::<Seq<char>, usize>::empty(),
            inventory.locked() == Map::<Seq<char>, usize>::empty(),
            inventory.shop() == shop_id,
    {
        Inventory { items: StockTable::new(), locked_items: StockTable::new(), shop_id }
    }

    /// The inventory of shop `shop_id` whose initial stock is given by lines
    /// `"<product>: <quantity>"`; every line must hold a `": "`.
    pub fn from_stock_lines(lines: &Vec<String>, shop_id: usize) -> (inventory: Self)
        requires
            forall|i: int| 0 <= i < lines.len() ==> has_separator(#[trigger] lines@[i]@),
        ensures
            inventory.wf(),
            inventory.available() == stock_of_lines(lines@.map_values(|l: String| l@)),
            inventory.locked() == Map::<Seq<char>, usize>::empty(),
            inventory.shop() == shop_id,
    {
        let mut items = StockTable::new();
        let ghost texts = lines@.map_values(|l: String| l@);
        let mut i: usize = 0;
        while i < lines.len()
            invariant
                i <= lines.len(),
                texts == lines@.map_values(|l: String| l@),
                forall|j: int| 0 <= j < lines.len() ==> has_separator(#[trigger] lines@[j]@),
                items.wf(),
                items@ == stock_of_lines(texts.take(i as int)),
            decreases lines.len() - i,
        {
            assert(texts.take(i + 1).drop_last() =~= texts.take(i as int));
            assert(texts.take(i + 1).last() == lines@[i as int]@);
            let (product, quantity) = crate::order::split_line(lines[i].as_str());
            if let Some(quantity) = quantity {
                items.insert(product, quantity);
            }
            i = i + 1;
        }
        assert(texts.take(lines.len() as int) =~= texts);
        Inventory { items, locked_items: StockTable::new(), shop_id }
    }

    /// Puts `quantity` units of `product` on sale, replacing its earlier count.
    pub fn insert_item(&mut self, product: String, quantity: usize)
        requires
            old(self).wf(),
        ensures
            final(self).wf(),
            final(self).available() == old(self).available().insert(product@, quantity),
            final(self).locked() == old(self).locked(),
            final(self).shop() == old(self).shop(),
    {
        self.items.insert(product, quantity);
    }

    /// Sells `quantity` units of `item` from the units on sale. Fails with a
    /// shortage, and changes nothing, when fewer units are on sale.
    pub fn deduct_product(&mut self, item: &String, quantity: usize) -> (result: Result<
        (),
        ShopError,
    >)
        requires
            old(self).wf(),
        ensures
            final(self).wf(),
            final(self).locked() == old(self).locked(),
            final(self).shop() == old(self).shop(),
            result is Ok <==> can_take(old(self).available(), item@, quantity),
            result is Ok ==> final(self).available() == taken(
                old(self).available(),
                item@,
                quantity,
            ),
            result matches Err(e) ==> final(self).available() == old(self).available()
                && is_shortage(e, "Insufficient stock"@),
    {
        if self.items.take(item, quantity) {
            Ok(())
        } else {
            Err(ShopError::InsufficientStock(String::from_str("Insufficient stock")))
        }
    }

    /// Releases `quantity` reserved units of `item` for good (the delivery
    /// went through). Fails with a shortage, and changes nothing, when fewer
    /// units are reserved.
    pub fn deduct_lock_product(&mut self, item: &String, quantity: usize) -> (result: Result<
        (),
        ShopError,
    >)
        requires
            old(self).wf(),
        ensures
            final(self).wf(),
            final(self).available() == old(self).available(),
            final(self).shop() == old(self).shop(),
            result is Ok <==> can_take(old(self).locked(), item@, quantity),
            result is Ok ==> final(self).locked() == taken(old(self).locked(), item@, quantity),
            result matches Err(e) ==> final(self).locked() == old(self).locked() && is_shortage(
                e,
                "Se reservo un producto y ahora no esta"@,
            ),
    {
        if self.locked_items.take(item, quantity) {
            Ok(())
        } else {
            Err(
                ShopError::InsufficientStock(
                    String::from_str("Se reservo un producto y ahora no esta"),
                ),
            )
        }
    }

    /// Reserves `quantity` units of `item`: they leave the units on sale and
    /// join the reserved ones. Fails with a shortage, and changes nothing,
    /// when fewer units are on sale.
    pub fn lock_product(&mut self, item: &String, quantity: usize) -> (result: Result<
        (),
        ShopError,
    >)
        requires
            old(self).wf(),
            can_take(old(self).available(), item@, quantity) ==> can_add(
                old(self).locked(),
                item@,
                quantity,
            ),
        ensures
            final(self).wf(),
            final(self).shop() == old(self).shop(),
            result is Ok <==> can_take(old(self).available(), item@, quantity),
            result is Ok ==> {
                &&& final(self).available() == taken(old(self).available(), item@, quantity)
                &&& final(self).locked() == added(old(self).locked(), item@, quantity)
            },
            result matches Err(e) ==> {
                &&& final(self).available() == old(self).available()
                &&& final(self).locked() == old(self).locked()
                &&& is_shortage(e, "Insufficient stock"@)
            },
    {
        if !self.items.take(item, quantity) {
            return Err(ShopError::InsufficientStock(String::from_str("Insufficient stock")));
        }
        self.locked_items.add(item, quantity);
        Ok(())
    }

    /// Returns `quantity` reserved units of `item` to the units on sale (the
    /// delivery failed). Fails with a shortage, and changes nothing, when
    /// fewer units are reserved.
    pub fn unlock_product(&mut self, item: &String, quantity: usize) -> (result: Result<
        (),
        ShopError,
    >)
        requires
            old(self).wf(),
            can_take(old(self).locked(), item@, quantity) ==> can_add(
                old(self).available(),
                item@,
                quantity,
            ),
        ensures
            final(self).wf(),
            final(self).shop() == old(self).shop(),
            result is Ok <==> can_take(old(self).locked(), item@, quantity),
            result is Ok ==> {
                &&& final(self).locked() == taken(old(self).locked(), item@, quantity)
                &&& final(self).available() == added(old(self).available(), item@, quantity)
            },
            result matches Err(e) ==> {
                &&& final(self).available() == old(self).available()
                &&& final(self).locked() == old(self).locked()
                &&& is_shortage(e, "Insufficient stock"@)
            },
    {
        if !self.locked_items.take(item, quantity) {
            return Err(ShopError::InsufficientStock(String::from_str("Insufficient stock")));
        }
        self.items.add(item, quantity);
        Ok(())
    }

    /// Serves an order placed in the shop itself by selling from the units on
    /// sale; `false`, with nothing changed, when the stock falls short.
    pub fn process_shop_order(&mut self, order: &Order) -> (served: bool)
        requires
            old(self).wf(),
        ensures
            final(self).wf(),
            final(self).locked() == old(self).locked(),
            final(self).shop() == old(self).shop(),
            served == can_take(old(self).available(), order@.product_id, order@.quantity),
            served ==> final(self).available() == taken(
                old(self).available(),
                order@.product_id,
                order@.quantity,
            ),
            !served ==> final(self).available() == old(self).available(),
    {
        let product_id = order.get_product_id();
        let quantity = order.get_quantity();
        self.deduct_product(&product_id, quantity).is_ok()
    }

    /// Takes an e-commerce order that shop `origin_shop` received: when enough
    /// units are on sale they are reserved and the order goes to the
    /// deliverer; otherwise nothing changes and the order goes on the token as
    /// an incomplete order of `origin_shop`.
    pub fn process_ecommerce_order(&mut self, origin_shop: usize, order: Order) -> (outcome:
        EcommerceOrderOutcome)
        requires
            old(self).wf(),
            can_take(old(self).available(), order@.product_id, order@.quantity) ==> can_add(
                old(self).locked(),
                order@.product_id,
                order@.quantity,
            ),
        ensures
            final(self).wf(),
            final(self).shop() == old(self).shop(),
            can_take(old(self).available(), order@.product_id, order@.quantity) ==> {
                &&& outcome matches EcommerceOrderOutcome::Deliver(d) && d.0@ == order@
                &&& final(self).available() == taken(
                    old(self).available(),
                    order@.product_id,
                    order@.quantity,
                )
                &&& final(self).locked() == added(
                    old(self).locked(),
                    order@.product_id,
                    order@.quantity,
                )
            },
            !can_take(old(self).available(), order@.product_id, order@.quantity) ==> {
                &&& outcome matches EcommerceOrderOutcome::Forward(o) && o@ == (
                IncompleteOrderModel {
                    shop_id: origin_shop,
                    product_id: order@.product_id,
                    quantity: order@.quantity,
                })
                &&& final(self).available() == old(self).available()
                &&& final(self).locked() == old(self).locked()
            },
    {
        let product_id = order.get_product_id();
        let quantity = order.get_quantity();
        if self.lock_product(&product_id, quantity).is_err() {
            EcommerceOrderOutcome::Forward(IncompleteOrder::new(origin_shop, product_id, quantity))
        } else {
            EcommerceOrderOutcome::Deliver(DeliverOrder(order))
        }
    }

    /// The delivery of `order` went through: its reserved units leave the shop.
    pub fn successful_delivery(&mut self, order: &Order) -> (result: Result<(), ShopError>)
        requires
            old(self).wf(),
        ensures
            final(self).wf(),
            final(self).available() == old(self).available(),
            final(self).shop() == old(self).shop(),
            result is Ok <==> can_take(old(self).locked(), order@.product_id, order@.quantity),
            result is Ok ==> final(self).locked() == taken(
                old(self).locked(),
                order@.product_id,
                order@.quantity,
            ),
            result matches Err(e) ==> final(self).locked() == old(self).locked() && is_shortage(
                e,
                "Se reservo un producto y ahora no esta"@,
            ),
    {
        let product_id = order.get_product_id();
        let quantity = order.get_quantity();
        self.deduct_lock_product(&product_id, quantity)
    }

    /// The delivery of `order` failed: its reserved units go back on sale.
    pub fn delivery_failed(&mut self, order: &Order) -> (result: Result<(), ShopError>)
        requires
            old(self).wf(),
            can_take(old(self).locked(), order@.product_id, order@.quantity) ==> can_add(
                old(self).available(),
                order@.product_id,
                order@.quantity,
            ),
        ensures
            final(self).wf(),
            final(self).shop() == old(self).shop(),
            result is Ok <==> can_take(old(self).locked(), order@.product_id, order@.quantity),
            result is Ok ==> {
                &&& final(self).locked() == taken(
                    old(self).locked(),
                    order@.product_id,
                    order@.quantity,
                )
                &&& final(self).available() == added(
                    old(self).available(),
                    order@.product_id,
                    order@.quantity,
                )
            },
            result matches Err(e) ==> {
                &&& final(self).available() == old(self).available()
                &&& final(self).locked() == old(self).locked()
                &&& is_shortage(e, "Insufficient stock"@)
            },
    {
        let product_id = order.get_product_id();
        let quantity = order.get_quantity();
        self.unlock_product(&product_id, quantity)
    }

    /// How many units of `product` are on sale.
    pub fn ask_for_product(&self, product: &String) -> (quantity: usize)
        requires
            self.wf(),
        ensures
            quantity == quantity_of(self.available(), product@),
    {
        match self.items.get(product) {
            Some(quantity) => quantity,
            None => 0,
        }
    }

    /// How many units of `product` are reserved for deliveries.
    pub fn ask_for_locked_product(&self, product: &String) -> (quantity: usize)
        requires
            self.wf(),
        ensures
            quantity == quantity_of(self.locked(), product@),
    {
        match self.locked_items.get(product) {
            Some(quantity) => quantity,
            None => 0,
        }
    }

    /// The shop this inventory belongs to.
    pub fn get_shop_id(&self) -> (shop_id: usize)
        ensures
            shop_id == self.shop(),
    {
        self.shop_id
    }

    /// The ledger of units on sale.
    pub fn items(&self) -> (table: &StockTable)
        requires
            self.wf(),
        ensures
            table.wf(),
            table@ == self.available(),
    {
        &self.items
    }

    /// The ledger of reserved units.
    pub fn locked_items(&self) -> (table: &StockTable)
        requires
            self.wf(),
        ensures
            table.wf(),
            table@ == self.locked(),
    {
        &self.locked_items
    }
}

} // verus!
