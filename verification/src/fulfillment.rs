//! The paid-cart fulfillment batch: every cart paid today is given a
//! delivery estimate, marked ready for delivery, persisted, and announced
//! to the customer and to the ERP system, strictly in that order.
//!
//! The five steps run once per cart with no rollback: if a later step were
//! to fail, the earlier ones would stand.  That gap is part of the design
//! being modelled, not repaired here.  Each collaborator records the carts
//! it was handed, and the batch records the order of all calls in a trace,
//! so both the counts and the ordering are stated in contracts and
//! observable by callers.

use vstd::prelude::*;

verus! {

/// Where a cart stands in the fulfillment workflow.  The only transition
/// is `Paid` to `ReadyForDelivery`; nothing moves a cart back.
#[derive(Clone, Copy, PartialEq, Eq, Structural, Debug)]
pub enum Status {
    Paid,
    ReadyForDelivery,
}

/// A cart as the fulfillment workflow sees it: its identity, its status,
/// and, once estimated, the opaque delivery-estimate value.
#[derive(Clone, Copy, Debug)]
pub struct ShoppingCart {
    pub id: u64,
    pub status: Status,
    pub estimated_delivery_day: Option<u8>,
}

impl ShoppingCart {
    /// A cart holds an estimate exactly when it has left `Paid`.
    pub open spec fn wf(self) -> bool {
        self.status == Status::Paid <==> self.estimated_delivery_day is None
    }

    pub fn new_paid(id: u64) -> (cart: Self)
        ensures
            cart.id == id,
            cart.status == Status::Paid,
            cart.estimated_delivery_day is None,
            cart.wf(),
    {
        ShoppingCart { id, status: Status::Paid, estimated_delivery_day: None }
    }

    /// The one transition of the workflow: the cart leaves `Paid`, keeps
    /// its identity, and stores the delivery estimate, exactly once.
    pub fn mask_as_ready_for_delivery(&mut self, estimated_delivery_day: u8)
        requires
            old(self).status == Status::Paid,
        ensures
            *final(self) == ready(*old(self), estimated_delivery_day),
            final(self).wf(),
    {
        self.status = Status::ReadyForDelivery;
        self.estimated_delivery_day = Some(estimated_delivery_day);
    }
}

/// The cart as it stands after its transition, carrying the estimate.
pub open spec fn ready(cart: ShoppingCart, day: u8) -> ShoppingCart {
    ShoppingCart { id: cart.id, status: Status::ReadyForDelivery, estimated_delivery_day: Some(day) }
}

/// Every cart of the sequence after its transition, in order.
pub open spec fn ready_all(carts: Seq<ShoppingCart>, day: u8) -> Seq<ShoppingCart> {
    carts.map_values(|cart: ShoppingCart| ready(cart, day))
}

/// After a batch run every persisted cart is ready for delivery, carries
/// the delivery estimate, and keeps its identity; one per input cart.
pub proof fn lemma_ready_all_ready(carts: Seq<ShoppingCart>, day: u8)
    ensures
        ready_all(carts, day).len() == carts.len(),
        forall|i: int|
            0 <= i < carts.len() ==> ready_all(carts, day)[i].status == Status::ReadyForDelivery
                && ready_all(carts, day)[i].estimated_delivery_day == Some(day)
                && ready_all(carts, day)[i].id == carts[i].id,
{
}

/// The cart store.  Carts paid today are handed out once; every cart given
/// to `save` is appended to the persisted log.
pub struct ShoppinCartRepository {
    paid_today: Vec<ShoppingCart>,
    saved: Vec<ShoppingCart>,
}

impl ShoppinCartRepository {
    /// The carts still waiting to be handed to the batch.
    pub closed spec fn paid_today(&self) -> Seq<ShoppingCart> {
        self.paid_today@
    }

    /// The carts persisted so far, in the order they were saved.
    pub closed spec fn saved(&self) -> Seq<ShoppingCart> {
        self.saved@
    }

    /// Every cart waiting in the store is a paid cart.
    pub open spec fn wf(&self) -> bool {
        forall|i: int|
            0 <= i < self.paid_today().len() ==> self.paid_today()[i].status == Status::Paid
                && self.paid_today()[i].wf()
    }

    pub fn new(paid_carts: Vec<ShoppingCart>) -> (repo: Self)
        requires
            forall|i: int|
                0 <= i < paid_carts@.len() ==> paid_carts@[i].status == Status::Paid
                    && paid_carts@[i].wf(),
        ensures
            repo.paid_today() == paid_carts@,
            repo.saved() == Seq::<ShoppingCart>::empty(),
            repo.wf(),
    {
        ShoppinCartRepository { paid_today: paid_carts, saved: Vec::new() }
    }

    /// Hands out the carts paid today.  The sequence is consumed: a second
    /// call yields nothing.
    pub fn get_carts_paid_today(&mut self) -> (carts: Vec<ShoppingCart>)
        ensures
            carts@ == old(self).paid_today(),
            final(self).paid_today() == Seq::<ShoppingCart>::empty(),
            final(self).saved() == old(self).saved(),
    {
        let mut carts: Vec<ShoppingCart> = Vec::new();
        core::mem::swap(&mut carts, &mut self.paid_today);
        carts
    }

    /// Persists the cart's current state by appending it to the log.
    /// Saving the same state twice appends it twice, to the same effect.
    pub fn save(&mut self, cart: &ShoppingCart)
        ensures
            final(self).saved() == old(self).saved().push(*cart),
            final(self).paid_today() == old(self).paid_today(),
    {
        self.saved.push(*cart);
    }

    pub fn saved_carts(&self) -> (carts: &Vec<ShoppingCart>)
        ensures
            carts@ == self.saved(),
    {
        &self.saved
    }
}

/// The delivery estimator: answers every request with its configured
/// estimate, an opaque small value.
#[derive(Clone, Copy, Debug)]
pub struct DeliveryCenter {
    pub estimate: u8,
}

impl DeliveryCenter {
    pub fn new(estimate: u8) -> (center: Self)
        ensures
            center.estimate == estimate,
    {
        DeliveryCenter { estimate }
    }

    pub fn deliver(&self, _cart: &ShoppingCart) -> (day: u8)
        ensures
            day == self.estimate,
    {
        self.estimate
    }
}

/// The ERP system: records every cart announced as ready for delivery.
pub struct Sap {
    notified: Vec<ShoppingCart>,
}

impl Sap {
    /// The carts announced so far, in order.
    pub closed spec fn notified(&self) -> Seq<ShoppingCart> {
        self.notified@
    }

    pub fn new() -> (sap: Self)
        ensures
            sap.notified() == Seq::<ShoppingCart>::empty(),
    {
        Sap { notified: Vec::new() }
    }

    pub fn cart_ready_for_delivery(&mut self, cart: &ShoppingCart)
        ensures
            final(self).notified() == old(self).notified().push(*cart),
    {
        self.notified.push(*cart);
    }

    pub fn notified_carts(&self) -> (carts: &Vec<ShoppingCart>)
        ensures
            carts@ == self.notified(),
    {
        &self.notified
    }
}

/// The customer notifier: records every cart a delivery estimate was sent
/// for.
pub struct Notifier {
    sent: Vec<ShoppingCart>,
}

impl Notifier {
    /// The carts a notification went out for, in order.
    pub closed spec fn sent(&self) -> Seq<ShoppingCart> {
        self.sent@
    }

    pub fn new() -> (notifier: Self)
        ensures
            notifier.sent() == Seq::<ShoppingCart>::empty(),
    {
        Notifier { sent: Vec::new() }
    }

    pub fn send_estimated_delivery_notification(&mut self, cart: &ShoppingCart)
        ensures
            final(self).sent() == old(self).sent().push(*cart),
    {
        self.sent.push(*cart);
    }

    pub fn sent_notifications(&self) -> (carts: &Vec<ShoppingCart>)
        ensures
            carts@ == self.sent(),
    {
        &self.sent
    }
}

/// One collaborator call of a batch run, carrying the id of the cart it
/// was made for.
#[derive(Clone, Copy, PartialEq, Eq, Structural, Debug)]
pub enum Event {
    DeliveryEstimated(u64),
    Saved(u64),
    CustomerNotified(u64),
    SapNotified(u64),
}

/// The calls one cart's processing makes, in their fixed order: estimate,
/// save, customer notification, ERP notification.
pub open spec fn cart_trace(cart: ShoppingCart) -> Seq<Event> {
    seq![
        Event::DeliveryEstimated(cart.id),
        Event::Saved(cart.id),
        Event::CustomerNotified(cart.id),
        Event::SapNotified(cart.id),
    ]
}

/// The calls of a whole batch run: each cart's four calls in order, one
/// cart after another, with no interleaving.
pub open spec fn batch_trace(carts: Seq<ShoppingCart>) -> Seq<Event>
    decreases carts.len(),
{
    if carts.len() == 0 {
        Seq::<Event>::empty()
    } else {
        batch_trace(carts.drop_last()) + cart_trace(carts.last())
    }
}

pub proof fn lemma_batch_trace_len(carts: Seq<ShoppingCart>)
    ensures
        batch_trace(carts).len() == 4 * carts.len(),
    decreases carts.len(),
{
    if carts.len() > 0 {
        lemma_batch_trace_len(carts.drop_last());
    }
}

/// The ordering invariant of a batch run: for every single cart, the
/// estimate request comes strictly before the save, and the save strictly
/// before either notification.  The four calls for the cart at position
/// `k` stand at positions `4k` to `4k + 3` of the trace.
pub proof fn lemma_batch_trace_orders_steps(carts: Seq<ShoppingCart>, k: int)
    requires
        0 <= k < carts.len(),
    ensures
        batch_trace(carts).len() == 4 * carts.len(),
        batch_trace(carts)[4 * k] == Event::DeliveryEstimated(carts[k].id),
        batch_trace(carts)[4 * k + 1] == Event::Saved(carts[k].id),
        batch_trace(carts)[4 * k + 2] == Event::CustomerNotified(carts[k].id),
        batch_trace(carts)[4 * k + 3] == Event::SapNotified(carts[k].id),
    decreases carts.len(),
{
    lemma_batch_trace_len(carts);
    lemma_batch_trace_len(carts.drop_last());
    if k == carts.len() - 1 {
        assert(carts.last() == carts[k]);
    } else {
        lemma_batch_trace_orders_steps(carts.drop_last(), k);
        assert(carts.drop_last()[k] == carts[k]);
    }
}

/// Drives the fulfillment workflow: pulls the carts paid today and runs
/// each through its five steps against the four collaborators.
pub struct PaidShoppingCartsBatch {
    pub shopping_cart_repo: ShoppinCartRepository,
    pub delivery_center: DeliveryCenter,
    pub sap: Sap,
    pub notifier: Notifier,
    pub trace: Vec<Event>,
}

impl PaidShoppingCartsBatch {
    pub fn new(
        shopping_cart_repo: ShoppinCartRepository,
        delivery_center: DeliveryCenter,
        sap: Sap,
        notifier: Notifier,
    ) -> (batch: Self)
        ensures
            batch.shopping_cart_repo == shopping_cart_repo,
            batch.delivery_center == delivery_center,
            batch.sap == sap,
            batch.notifier == notifier,
            batch.trace@ == Seq::<Event>::empty(),
    {
        PaidShoppingCartsBatch {
            shopping_cart_repo,
            delivery_center,
            sap,
            notifier,
            trace: Vec::new(),
        }
    }

    /// Processes every cart paid today, one at a time and in the order the
    /// store yields them.  Per cart, strictly in sequence: ask for the
    /// delivery estimate, mark the cart ready, persist it, notify the
    /// customer, notify the ERP system.  Nothing is retried and nothing is
    /// rolled back.
    pub fn process_all(&mut self)
        requires
            old(self).shopping_cart_repo.wf(),
        ensures
            final(self).shopping_cart_repo.paid_today() == Seq::<ShoppingCart>::empty(),
            final(self).shopping_cart_repo.saved() == old(self).shopping_cart_repo.saved()
                + ready_all(old(self).shopping_cart_repo.paid_today(), old(self).delivery_center.estimate),
            final(self).notifier.sent() == old(self).notifier.sent()
                + ready_all(old(self).shopping_cart_repo.paid_today(), old(self).delivery_center.estimate),
            final(self).sap.notified() == old(self).sap.notified()
                + ready_all(old(self).shopping_cart_repo.paid_today(), old(self).delivery_center.estimate),
            final(self).trace@ == old(self).trace@
                + batch_trace(old(self).shopping_cart_repo.paid_today()),
            final(self).delivery_center == old(self).delivery_center,
    {
        let carts = self.shopping_cart_repo.get_carts_paid_today();
        let ghost day = self.delivery_center.estimate;
        let ghost old_saved = self.shopping_cart_repo.saved();
        let ghost old_sent = self.notifier.sent();
        let ghost old_notified = self.sap.notified();
        let ghost old_trace = self.trace@;
        let mut i: usize = 0;
        while i < carts.len()
            invariant
                0 <= i <= carts.len(),
                forall|j: int|
                    0 <= j < carts@.len() ==> carts@[j].status == Status::Paid,
                self.delivery_center.estimate == day,
                self.shopping_cart_repo.paid_today() == Seq::<ShoppingCart>::empty(),
                self.shopping_cart_repo.saved() == old_saved + ready_all(carts@.take(i as int), day),
                self.notifier.sent() == old_sent + ready_all(carts@.take(i as int), day),
                self.sap.notified() == old_notified + ready_all(carts@.take(i as int), day),
                self.trace@ == old_trace + batch_trace(carts@.take(i as int)),
            decreases carts.len() - i,
        {
            let mut cart = carts[i];
            let estimated_delivery_day = self.delivery_center.deliver(&cart);
            self.trace.push(Event::DeliveryEstimated(cart.id));
            cart.mask_as_ready_for_delivery(estimated_delivery_day);
            self.shopping_cart_repo.save(&cart);
            self.trace.push(Event::Saved(cart.id));
            self.notifier.send_estimated_delivery_notification(&cart);
            self.trace.push(Event::CustomerNotified(cart.id));
            self.sap.cart_ready_for_delivery(&cart);
            self.trace.push(Event::SapNotified(cart.id));
            proof {
                assert(carts@.take(i + 1).drop_last() =~= carts@.take(i as int));
                assert(carts@.take(i + 1).last() == carts@[i as int]);
                assert(ready_all(carts@.take(i + 1), day) =~= ready_all(
                    carts@.take(i as int),
                    day,
                ).push(ready(carts@[i as int], day)));
                assert(self.trace@ =~= old_trace + batch_trace(carts@.take(i + 1)));
            }
            i = i + 1;
        }
        proof {
            assert(carts@.take(carts@.len() as int) =~= carts@);
        }
    }
}

} // verus!
