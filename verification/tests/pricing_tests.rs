use shoplib::pricing::{
    Category, DeliveryPrice, ExtraChargeForElectronics, Item, Money, PriceCalculator, PriceRule,
    Rule, ShoppingCart,
};

fn item() -> Item {
    Item::new(
        String::from("Name"),
        1,
        Money::from_cents(1000),
        Category::Normal,
    )
}

fn electronic_item() -> Item {
    Item::new(
        String::from("Name"),
        1,
        Money::from_cents(1000),
        Category::Eletronic,
    )
}

#[test]
fn price_depends_on_the_number_of_items() {
    let tests: Vec<(usize, u64)> = vec![
        (0, 0),
        (1, 500),
        (3, 500),
        (4, 1250),
        (10, 1250),
        (11, 2000),
    ];

    for (num_items, expected_cents) in tests {
        let mut cart = ShoppingCart::new();

        for _ in 0..num_items {
            cart.add(item());
        }

        assert_eq!(
            Money::from_cents(expected_cents),
            DeliveryPrice.price_to_aggregate(&cart)
        );
    }
}

#[test]
fn main_empty_cart() {
    let cart = ShoppingCart::new();
    assert_eq!(
        Money::from_cents(0),
        ExtraChargeForElectronics.price_to_aggregate(&cart)
    );
}

#[test]
fn cart_does_not_contain_eletronic_item() {
    let mut cart = ShoppingCart::new();

    cart.add(item());

    assert_eq!(
        Money::from_cents(0),
        ExtraChargeForElectronics.price_to_aggregate(&cart)
    );
}

#[test]
fn cart_contains_electronic_item() {
    let mut cart = ShoppingCart::new();
    cart.add(item());
    cart.add(electronic_item());
    assert_eq!(
        Money::from_cents(750),
        ExtraChargeForElectronics.price_to_aggregate(&cart)
    );
}

#[test]
fn call_price_rules() {
    let mut cart = ShoppingCart::new();

    cart.add(item());

    let sut = PriceCalculator::new(vec![
        Rule::Flat(Money::from_cents(100)),
        Rule::Flat(Money::from_cents(0)),
        Rule::Flat(Money::from_cents(200)),
    ]);

    assert_eq!(Money::from_cents(300), sut.calculate(&cart));
}

#[test]
fn combined_delivery_and_surcharge() {
    let mut cart = ShoppingCart::new();
    for _ in 0..5 {
        cart.add(item());
    }
    cart.add(electronic_item());

    let calculator = PriceCalculator::new(vec![
        Rule::Delivery(DeliveryPrice),
        Rule::Electronics(ExtraChargeForElectronics),
    ]);

    assert_eq!(
        Money::from_cents(1250),
        DeliveryPrice.price_to_aggregate(&cart)
    );
    assert_eq!(
        Money::from_cents(750),
        ExtraChargeForElectronics.price_to_aggregate(&cart)
    );
    assert_eq!(Money::from_cents(2000), calculator.calculate(&cart));
}

#[test]
fn empty_cart_costs_nothing() {
    let cart = ShoppingCart::new();

    let calculator = PriceCalculator::new(vec![
        Rule::Delivery(DeliveryPrice),
        Rule::Electronics(ExtraChargeForElectronics),
    ]);

    assert_eq!(
        Money::from_cents(0),
        DeliveryPrice.price_to_aggregate(&cart)
    );
    assert_eq!(
        Money::from_cents(0),
        ExtraChargeForElectronics.price_to_aggregate(&cart)
    );
    assert_eq!(Money::from_cents(0), calculator.calculate(&cart));
}

#[test]
fn zero_rule_never_changes_the_total() {
    let mut cart = ShoppingCart::new();
    cart.add(item());
    cart.add(electronic_item());

    let without_zero = PriceCalculator::new(vec![
        Rule::Delivery(DeliveryPrice),
        Rule::Electronics(ExtraChargeForElectronics),
    ]);
    let with_zero = PriceCalculator::new(vec![
        Rule::Delivery(DeliveryPrice),
        Rule::Electronics(ExtraChargeForElectronics),
        Rule::Flat(Money::zero()),
    ]);

    assert_eq!(without_zero.calculate(&cart), with_zero.calculate(&cart));
}

#[test]
fn calculate_twice_yields_identical_results() {
    let mut cart = ShoppingCart::new();
    for _ in 0..4 {
        cart.add(item());
    }
    cart.add(electronic_item());

    let calculator = PriceCalculator::new(vec![
        Rule::Delivery(DeliveryPrice),
        Rule::Electronics(ExtraChargeForElectronics),
    ]);

    let first = calculator.calculate(&cart);
    let second = calculator.calculate(&cart);

    assert_eq!(first, second);
}

#[test]
fn surcharge_ignores_item_count_without_electronics() {
    let mut cart = ShoppingCart::new();
    for _ in 0..12 {
        cart.add(item());
    }
    assert_eq!(
        Money::from_cents(0),
        ExtraChargeForElectronics.price_to_aggregate(&cart)
    );
}
