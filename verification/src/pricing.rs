//! A composable pricing-rule engine: every configured rule contributes one
//! additive amount for a cart, and the calculator returns their exact sum.
//!
//! Money is held as a whole number of cents, an exact fixed-scale decimal:
//! repeated additions never drift.

use vstd::prelude::*;

verus! {

/// An exact decimal amount of money, as a whole number of cents.
#[derive(Clone, Copy, PartialEq, Eq, Structural, Debug)]
pub struct Money {
    pub cents: u64,
}

impl Money {
    pub fn from_cents(cents: u64) -> (m: Self)
        ensures
            m.cents == cents,
    {
        Money { cents }
    }

    pub fn zero() -> (m: Self)
        ensures
            m.cents == 0,
    {
        Money { cents: 0 }
    }
}

#[derive(Clone, Copy, PartialEq, Eq, Structural, Debug)]
pub enum Category {
    Normal,
    Eletronic,
}

/// One item of a cart: a name, a quantity, a unit price and a category.
#[derive(Debug)]
pub struct Item {
    pub name: String,
    pub quantity: usize,
    pub price: Money,
    pub category: Category,
}

impl Item {
    pub fn new(name: String, quantity: usize, price: Money, category: Category) -> (item: Self)
        ensures
            item.name == name,
            item.quantity == quantity,
            item.price == price,
            item.category == category,
    {
        Item { name, quantity, price, category }
    }

    pub fn category(&self) -> (c: Category)
        ensures
            c == self.category,
    {
        self.category
    }
}

/// A cart of items, priced by the rule engine.
#[derive(Debug)]
pub struct ShoppingCart {
    items: Vec<Item>,
}

impl View for ShoppingCart {
    type V = Seq<Item>;

    closed spec fn view(&self) -> Seq<Item> {
        self.items@
    }
}

impl ShoppingCart {
    pub fn new() -> (cart: Self)
        ensures
            cart@ == Seq::<Item>::empty(),
    {
        ShoppingCart { items: Vec::new() }
    }

    pub fn number_of_items(&self) -> (n: usize)
        ensures
            n == self@.len(),
    {
        self.items.len()
    }

    pub fn add(&mut self, item: Item)
        ensures
            final(self)@ == old(self)@.push(item),
    {
        self.items.push(item);
    }

    pub fn items(&self) -> (items: &Vec<Item>)
        ensures
            items@ == self@,
    {
        &self.items
    }
}

/// The delivery charge for a cart with `n` items, in cents: nothing for an
/// empty cart, 5 euros up to 3 items, 12.5 euros up to 10, 20 euros beyond.
pub open spec fn delivery_amount(n: nat) -> int {
    if n == 0 {
        0
    } else if n <= 3 {
        500
    } else if n <= 10 {
        1250
    } else {
        2000
    }
}

/// Whether any item of the sequence is electronic.
pub open spec fn has_electronic(items: Seq<Item>) -> bool {
    exists|i: int| 0 <= i < items.len() && items[i].category == Category::Eletronic
}

/// The electronics surcharge for a cart, in cents: 7.50 euros if any item
/// is electronic, nothing otherwise.
pub open spec fn surcharge_amount(items: Seq<Item>) -> int {
    if has_electronic(items) {
        750
    } else {
        0
    }
}

/// One additive price component.  A rule maps a cart to the exact amount it
/// adds to the total; rules are independent of one another, so new rules
/// extend the calculator without changing it.
pub trait PriceRule {
    /// The exact amount, in cents, this rule adds for the given cart.
    spec fn amount(&self, cart: &ShoppingCart) -> int;

    /// Every rule's amount is a representable, non-negative number of cents.
    proof fn amount_in_range(&self, cart: &ShoppingCart)
        ensures
            0 <= self.amount(cart) <= u64::MAX,
    ;

    fn price_to_aggregate(&self, cart: &ShoppingCart) -> (price: Money)
        ensures
            price.cents == self.amount(cart),
    ;
}

/// The delivery charge: depends only on how many items the cart holds.
pub struct DeliveryPrice;

impl PriceRule for DeliveryPrice {
    open spec fn amount(&self, cart: &ShoppingCart) -> int {
        delivery_amount(cart@.len())
    }

    proof fn amount_in_range(&self, cart: &ShoppingCart) {
    }

    fn price_to_aggregate(&self, cart: &ShoppingCart) -> (price: Money) {
        let n = cart.number_of_items();
        if n == 0 {
            Money::from_cents(0)
        } else if n <= 3 {
            Money::from_cents(500)
        } else if n <= 10 {
            Money::from_cents(1250)
        } else {
            Money::from_cents(2000)
        }
    }
}

/// The electronics surcharge: a flat amount if any item is electronic.
pub struct ExtraChargeForElectronics;

impl PriceRule for ExtraChargeForElectronics {
    open spec fn amount(&self, cart: &ShoppingCart) -> int {
        surcharge_amount(cart@)
    }

    proof fn amount_in_range(&self, cart: &ShoppingCart) {
    }

    fn price_to_aggregate(&self, cart: &ShoppingCart) -> (price: Money) {
        let items = cart.items();
        let mut i: usize = 0;
        while i < items.len()
            invariant
                0 <= i <= items.len(),
                items@ == cart@,
                forall|j: int| 0 <= j < i ==> cart@[j].category != Category::Eletronic,
            decreases items.len() - i,
        {
            if items[i].category() == Category::Eletronic {
                return Money::from_cents(750);
            }
            i = i + 1;
        }
        Money::from_cents(0)
    }
}

/// A rule as the calculator is configured with it: one of the known
/// charges, or a flat amount whatever the cart holds.
pub enum Rule {
    Delivery(DeliveryPrice),
    Electronics(ExtraChargeForElectronics),
    Flat(Money),
}

impl PriceRule for Rule {
    open spec fn amount(&self, cart: &ShoppingCart) -> int {
        match self {
            Rule::Delivery(rule) => rule.amount(cart),
            Rule::Electronics(rule) => rule.amount(cart),
            Rule::Flat(money) => money.cents as int,
        }
    }

    proof fn amount_in_range(&self, cart: &ShoppingCart) {
        match self {
            Rule::Delivery(rule) => rule.amount_in_range(cart),
            Rule::Electronics(rule) => rule.amount_in_range(cart),
            Rule::Flat(money) => {},
        }
    }

    fn price_to_aggregate(&self, cart: &ShoppingCart) -> (price: Money) {
        match self {
            Rule::Delivery(rule) => rule.price_to_aggregate(cart),
            Rule::Electronics(rule) => rule.price_to_aggregate(cart),
            Rule::Flat(money) => *money,
        }
    }
}

/// The exact sum, in cents, of every rule's amount for the given cart.
pub open spec fn rules_total<R: PriceRule>(rules: Seq<R>, cart: &ShoppingCart) -> int
    decreases rules.len(),
{
    if rules.len() == 0 {
        0
    } else {
        rules_total(rules.drop_last(), cart) + rules.last().amount(cart)
    }
}

/// Every prefix of a rule list sums to no more than the whole list.
pub proof fn lemma_rules_total_prefix_le<R: PriceRule>(rules: Seq<R>, cart: &ShoppingCart, n: int)
    requires
        0 <= n <= rules.len(),
    ensures
        rules_total(rules.take(n), cart) <= rules_total(rules, cart),
    decreases rules.len() - n,
{
    if n == rules.len() {
        assert(rules.take(n) =~= rules);
    } else {
        assert(rules.take(n + 1).drop_last() =~= rules.take(n));
        rules[n].amount_in_range(cart);
        lemma_rules_total_prefix_le(rules, cart, n + 1);
    }
}

/// The sum over any prefix of a rule list is non-negative.
pub proof fn lemma_rules_total_prefix_nonneg<R: PriceRule>(rules: Seq<R>, cart: &ShoppingCart, n: int)
    requires
        0 <= n <= rules.len(),
    ensures
        rules_total(rules.take(n), cart) >= 0,
    decreases n,
{
    if n > 0 {
        assert(rules.take(n).drop_last() =~= rules.take(n - 1));
        rules[n - 1].amount_in_range(cart);
        lemma_rules_total_prefix_nonneg(rules, cart, n - 1);
    }
}

/// Aggregates a configured list of pricing rules into a total price.
/// The rule list is fixed at construction; the calculator itself is
/// stateless and may price any number of carts.
pub struct PriceCalculator<R: PriceRule> {
    rules: Vec<R>,
}

impl<R: PriceRule> View for PriceCalculator<R> {
    type V = Seq<R>;

    closed spec fn view(&self) -> Seq<R> {
        self.rules@
    }
}

impl<R: PriceRule> PriceCalculator<R> {
    pub fn new(rules: Vec<R>) -> (calculator: Self)
        ensures
            calculator@ == rules@,
    {
        PriceCalculator { rules }
    }

    /// The total price of the cart: the exact sum of every configured
    /// rule's amount.
    pub fn calculate(&self, cart: &ShoppingCart) -> (total: Money)
        requires
            rules_total(self@, cart) <= u64::MAX,
        ensures
            total.cents == rules_total(self@, cart),
    {
        let mut total: u64 = 0;
        let mut i: usize = 0;
        while i < self.rules.len()
            invariant
                0 <= i <= self.rules.len(),
                rules_total(self@, cart) <= u64::MAX,
                total == rules_total(self@.take(i as int), cart),
            decreases self.rules.len() - i,
        {
            let price = self.rules[i].price_to_aggregate(cart);
            proof {
                assert(self@.take(i + 1).drop_last() =~= self@.take(i as int));
                assert(self@.take(i + 1).last() == self@[i as int]);
                lemma_rules_total_prefix_le(self@, cart, i + 1);
                lemma_rules_total_prefix_nonneg(self@, cart, i as int);
                self@[i as int].amount_in_range(cart);
            }
            total = total + price.cents;
            i = i + 1;
        }
        proof {
            assert(self@.take(self.rules.len() as int) =~= self@);
        }
        Money { cents: total }
    }
}

/// Adding a rule that contributes nothing for a cart never changes the
/// total: the calculator is an additive aggregation with zero as identity.
pub proof fn lemma_zero_rule_identity<R: PriceRule>(rules: Seq<R>, zero_rule: R, cart: &ShoppingCart)
    requires
        zero_rule.amount(cart) == 0,
    ensures
        rules_total(rules.push(zero_rule), cart) == rules_total(rules, cart),
{
    assert(rules.push(zero_rule).drop_last() =~= rules);
}

/// Pricing is a pure function of the rule list and the cart: two totals
/// computed from the same configuration over the same cart are equal.
pub proof fn lemma_calculate_deterministic<R: PriceRule>(
    rules: Seq<R>,
    cart: &ShoppingCart,
    total1: Money,
    total2: Money,
)
    requires
        total1.cents == rules_total(rules, cart),
        total2.cents == rules_total(rules, cart),
    ensures
        total1 == total2,
{
}

} // verus!
