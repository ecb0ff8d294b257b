//! Sending low-valued invoices to the ERP system: the filter picks them,
//! the sender hands each one over, in order.

use vstd::prelude::*;

pub use crate::invoices::{
    low_valued, InMemoryInvoicesRepository, Invoice, InvoiceFilter, InvoicesRepository,
};

verus! {

/// The ERP endpoint invoices are sent to.  `sent` is the list of invoices
/// it has received so far; `send` appends one.
pub trait Sap {
    spec fn sent(&self) -> Seq<Invoice>;

    fn send(&mut self, invoice: &Invoice)
        ensures
            final(self).sent() == old(self).sent().push(*invoice),
    ;
}

/// An ERP endpoint that records what it receives, for configuration and
/// tests.
pub struct RecordingSap {
    sent: Vec<Invoice>,
}

impl RecordingSap {
    pub fn new() -> (sap: Self)
        ensures
            sap.sent() == Seq::<Invoice>::empty(),
    {
        RecordingSap { sent: Vec::new() }
    }

    pub fn sent_invoices(&self) -> (invoices: &Vec<Invoice>)
        ensures
            invoices@ == self.sent(),
    {
        &self.sent
    }
}

impl Sap for RecordingSap {
    closed spec fn sent(&self) -> Seq<Invoice> {
        self.sent@
    }

    fn send(&mut self, invoice: &Invoice) {
        self.sent.push(invoice.clone());
    }
}

/// Sends every low-valued invoice of the repository to the ERP system.
pub struct SapInvoiceSender<R: InvoicesRepository, S: Sap> {
    pub invoice_filter: InvoiceFilter<R>,
    pub sap: S,
}

impl<R: InvoicesRepository, S: Sap> SapInvoiceSender<R, S> {
    pub fn new(invoice_filter: InvoiceFilter<R>, sap: S) -> (sender: Self)
        ensures
            sender.invoice_filter == invoice_filter,
            sender.sap == sap,
    {
        SapInvoiceSender { invoice_filter, sap }
    }

    /// Sends exactly the invoices with value under 100, one by one, in the
    /// order the repository holds them.
    pub fn send_low_valued_invoices(&mut self)
        ensures
            final(self).sap.sent() == old(self).sap.sent() + low_valued(
                old(self).invoice_filter.invoices_repo.invoices(),
            ),
            final(self).invoice_filter == old(self).invoice_filter,
    {
        let low = self.invoice_filter.low_value_invoices();
        let ghost old_sent = self.sap.sent();
        let mut i: usize = 0;
        while i < low.len()
            invariant
                0 <= i <= low@.len(),
                low@ == low_valued(old(self).invoice_filter.invoices_repo.invoices()),
                self.invoice_filter == old(self).invoice_filter,
                self.sap.sent() == old_sent + low@.take(i as int),
            decreases low@.len() - i,
        {
            self.sap.send(&low[i]);
            proof {
                assert(old_sent + low@.take(i + 1) =~= (old_sent + low@.take(i as int)).push(
                    low@[i as int],
                ));
            }
            i = i + 1;
        }
        proof {
            assert(old_sent + low@.take(low@.len() as int) =~= old_sent + low@);
        }
    }
}

} // verus!
