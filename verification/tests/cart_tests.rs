use shoplib::cart::{CartItem, ShoppingCart};

#[test]
fn empty_cart() {
    let cart = ShoppingCart::new();
    assert_eq!(0, cart.total_price_in_cents());
}

#[test]
fn cart_with_one_item_quantity_1() {
    let mut cart = ShoppingCart::new();
    cart.add(CartItem::new(1, 1000, 1));
    assert_eq!(1000, cart.total_price_in_cents());
}

#[test]
fn cart_with_with_one_item_and_quantity_greater_than_1() {
    let mut cart = ShoppingCart::new();
    cart.add(CartItem::new(1, 1000, 2));
    assert_eq!(2000, cart.total_price_in_cents());
}

#[test]
fn cart_with_many_items_quantity_one() {
    let mut cart = ShoppingCart::new();
    cart.add(CartItem::new(1, 1000, 1));
    cart.add(CartItem::new(2, 1000, 1));
    assert_eq!(2000, cart.total_price_in_cents());
}

#[test]
fn cart_with_many_items_quantity_greater_than_1() {
    let mut cart = ShoppingCart::new();
    cart.add(CartItem::new(1, 1000, 3));
    cart.add(CartItem::new(2, 1000, 2));
    assert_eq!(5000, cart.total_price_in_cents());
}
