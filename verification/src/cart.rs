//! A cart of priced items, with its exact total in cents.

use vstd::prelude::*;

verus! {

/// One entry of a shopping cart: a product, its unit price in cents, and
/// how many units the cart holds.
#[derive(Clone, Copy, Debug)]
pub struct CartItem {
    pub product_id: u64,
    pub price_in_cents: u64,
    pub quantity: u64,
}

impl CartItem {
    pub fn new(product_id: u64, price_in_cents: u64, quantity: u64) -> (item: Self)
        ensures
            item.product_id == product_id,
            item.price_in_cents == price_in_cents,
            item.quantity == quantity,
    {
        CartItem { product_id, price_in_cents, quantity }
    }
}

/// The exact cost of one item line: unit price times quantity.
pub open spec fn item_cost(item: CartItem) -> int {
    item.price_in_cents * item.quantity
}

/// The exact cost of a sequence of item lines.
pub open spec fn items_cost(items: Seq<CartItem>) -> int
    decreases items.len(),
{
    if items.len() == 0 {
        0
    } else {
        items_cost(items.drop_last()) + item_cost(items.last())
    }
}

pub proof fn lemma_item_cost_nonneg(item: CartItem)
    ensures
        item_cost(item) >= 0,
{
    assert(item.price_in_cents * item.quantity >= 0) by (nonlinear_arith)
        requires
            item.price_in_cents >= 0,
            item.quantity >= 0,
    ;
}

/// Every prefix of a sequence of items costs no more than the whole.
pub proof fn lemma_items_cost_prefix_le(items: Seq<CartItem>, n: int)
    requires
        0 <= n <= items.len(),
    ensures
        items_cost(items.take(n)) <= items_cost(items),
    decreases items.len() - n,
{
    if n == items.len() {
        assert(items.take(n) =~= items);
    } else {
        assert(items.take(n + 1).drop_last() =~= items.take(n));
        lemma_item_cost_nonneg(items[n]);
        lemma_items_cost_prefix_le(items, n + 1);
    }
}

/// A shopping cart: the sequence of items put in it.
#[derive(Debug)]
pub struct ShoppingCart {
    items: Vec<CartItem>,
}

impl View for ShoppingCart {
    type V = Seq<CartItem>;

    closed spec fn view(&self) -> Seq<CartItem> {
        self.items@
    }
}

impl ShoppingCart {
    pub fn new() -> (cart: Self)
        ensures
            cart@ == Seq::<CartItem>::empty(),
    {
        ShoppingCart { items: Vec::new() }
    }

    pub fn add(&mut self, item: CartItem)
        ensures
            final(self)@ == old(self)@.push(item),
    {
        self.items.push(item);
    }

    /// The cart's total price: the sum over all items of unit price times
    /// quantity, in cents.
    pub fn total_price_in_cents(&self) -> (total: u64)
        requires
            items_cost(self@) <= u64::MAX,
        ensures
            total == items_cost(self@),
    {
        let mut total: u64 = 0;
        let mut i: usize = 0;
        while i < self.items.len()
            invariant
                0 <= i <= self.items.len(),
                items_cost(self@) <= u64::MAX,
                total == items_cost(self@.take(i as int)),
            decreases self.items.len() - i,
        {
            let item = self.items[i];
            proof {
                assert(self@.take(i + 1).drop_last() =~= self@.take(i as int));
                assert(self@.take(i + 1).last() == self@[i as int]);
                lemma_items_cost_prefix_le(self@, i + 1);
                lemma_item_cost_nonneg(self@[i as int]);
                lemma_items_cost_prefix_nonneg(self@, i as int);
            }
            total = total + item.price_in_cents * item.quantity;
            i = i + 1;
        }
        proof {
            assert(self@.take(self.items.len() as int) =~= self@);
        }
        total
    }
}

/// The cost of any prefix of a sequence of items is non-negative.
pub proof fn lemma_items_cost_prefix_nonneg(items: Seq<CartItem>, n: int)
    requires
        0 <= n <= items.len(),
    ensures
        items_cost(items.take(n)) >= 0,
    decreases n,
{
    if n > 0 {
        assert(items.take(n).drop_last() =~= items.take(n - 1));
        lemma_item_cost_nonneg(items[n - 1]);
        lemma_items_cost_prefix_nonneg(items, n - 1);
    }
}

} // verus!
