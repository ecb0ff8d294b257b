use shoplib::fulfillment::{
    DeliveryCenter, Event, Notifier, PaidShoppingCartsBatch, Sap, ShoppinCartRepository,
    ShoppingCart, Status,
};

fn batch_over(carts: Vec<ShoppingCart>) -> PaidShoppingCartsBatch {
    PaidShoppingCartsBatch::new(
        ShoppinCartRepository::new(carts),
        DeliveryCenter::new(3),
        Sap::new(),
        Notifier::new(),
    )
}

#[test]
fn processes_three_paid_carts() {
    let carts = vec![
        ShoppingCart::new_paid(1),
        ShoppingCart::new_paid(2),
        ShoppingCart::new_paid(3),
    ];
    let mut batch = batch_over(carts);

    batch.process_all();

    let saved = batch.shopping_cart_repo.saved_carts();
    assert_eq!(3, saved.len());
    for cart in saved.iter() {
        assert_eq!(Status::ReadyForDelivery, cart.status);
        assert!(cart.estimated_delivery_day.is_some());
    }
    assert_eq!(3, batch.notifier.sent_notifications().len());
    assert_eq!(3, batch.sap.notified_carts().len());
}

#[test]
fn each_cart_is_estimated_then_saved_then_notified() {
    let carts = vec![ShoppingCart::new_paid(7), ShoppingCart::new_paid(8)];
    let mut batch = batch_over(carts);

    batch.process_all();

    let expected = vec![
        Event::DeliveryEstimated(7),
        Event::Saved(7),
        Event::CustomerNotified(7),
        Event::SapNotified(7),
        Event::DeliveryEstimated(8),
        Event::Saved(8),
        Event::CustomerNotified(8),
        Event::SapNotified(8),
    ];
    assert_eq!(expected, batch.trace);
}

#[test]
fn carts_are_handed_out_once() {
    let mut batch = batch_over(vec![ShoppingCart::new_paid(4)]);

    batch.process_all();
    batch.process_all();

    assert_eq!(1, batch.shopping_cart_repo.saved_carts().len());
    assert_eq!(1, batch.notifier.sent_notifications().len());
    assert_eq!(1, batch.sap.notified_carts().len());
}

#[test]
fn saved_carts_keep_their_identity_and_estimate() {
    let mut batch = batch_over(vec![ShoppingCart::new_paid(42)]);

    batch.process_all();

    let saved = batch.shopping_cart_repo.saved_carts();
    assert_eq!(42, saved[0].id);
    assert_eq!(Some(3), saved[0].estimated_delivery_day);
}

#[test]
fn empty_batch_touches_nothing() {
    let mut batch = batch_over(vec![]);

    batch.process_all();

    assert!(batch.shopping_cart_repo.saved_carts().is_empty());
    assert!(batch.notifier.sent_notifications().is_empty());
    assert!(batch.sap.notified_carts().is_empty());
    assert!(batch.trace.is_empty());
}

#[test]
fn mask_as_ready_for_delivery_sets_status_and_estimate() {
    let mut cart = ShoppingCart::new_paid(9);
    assert_eq!(Status::Paid, cart.status);
    assert_eq!(None, cart.estimated_delivery_day);

    cart.mask_as_ready_for_delivery(5);

    assert_eq!(Status::ReadyForDelivery, cart.status);
    assert_eq!(Some(5), cart.estimated_delivery_day);
    assert_eq!(9, cart.id);
}
