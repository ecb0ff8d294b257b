//! Filtering issued invoices: the program returns all invoices with a
//! value under 100, drawn from whatever repository backs the store.

use vstd::prelude::*;

verus! {

/// An issued invoice: who it goes to, and its value.
#[derive(Debug, PartialEq)]
pub struct Invoice {
    pub to: String,
    pub value: i32,
}

impl Invoice {
    pub fn new(to: String, value: i32) -> (invoice: Self)
        ensures
            invoice.to == to,
            invoice.value == value,
    {
        Invoice { to, value }
    }
}

impl Clone for Invoice {
    fn clone(&self) -> (other: Self)
        ensures
            other == *self,
    {
        Invoice { to: self.to.clone(), value: self.value }
    }
}

/// The low-valued invoices of a sequence: those with value under 100, in
/// their original order.
pub open spec fn low_valued(invoices: Seq<Invoice>) -> Seq<Invoice> {
    invoices.filter(|invoice: Invoice| invoice.value < 100)
}

/// The store of issued invoices.  `invoices` is the store's contents;
/// `all` hands exactly those out.
pub trait InvoicesRepository {
    spec fn invoices(&self) -> Seq<Invoice>;

    fn all(&self) -> (invoices: Vec<Invoice>)
        ensures
            invoices@ == self.invoices(),
    ;
}

/// A repository over a fixed list of invoices, for configuration and
/// tests.
pub struct InMemoryInvoicesRepository {
    invoices: Vec<Invoice>,
}

impl InMemoryInvoicesRepository {
    pub fn new(invoices: Vec<Invoice>) -> (repo: Self)
        ensures
            repo.invoices() == invoices@,
    {
        InMemoryInvoicesRepository { invoices }
    }
}

impl InvoicesRepository for InMemoryInvoicesRepository {
    closed spec fn invoices(&self) -> Seq<Invoice> {
        self.invoices@
    }

    fn all(&self) -> (invoices: Vec<Invoice>) {
        let mut out: Vec<Invoice> = Vec::new();
        let mut i: usize = 0;
        while i < self.invoices.len()
            invariant
                0 <= i <= self.invoices@.len(),
                out@ == self.invoices@.take(i as int),
            decreases self.invoices@.len() - i,
        {
            out.push(self.invoices[i].clone());
            proof {
                assert(out@ =~= self.invoices@.take(i + 1));
            }
            i = i + 1;
        }
        proof {
            assert(self.invoices@.take(self.invoices@.len() as int) =~= self.invoices@);
        }
        out
    }
}

/// Returns the issued invoices whose value is under 100.
pub struct InvoiceFilter<R: InvoicesRepository> {
    pub invoices_repo: R,
}

impl<R: InvoicesRepository> InvoiceFilter<R> {
    pub fn new(invoices_repo: R) -> (filter: Self)
        ensures
            filter.invoices_repo == invoices_repo,
    {
        InvoiceFilter { invoices_repo }
    }

    /// Exactly the repository's invoices with value under 100, in the
    /// order the repository holds them.
    pub fn low_value_invoices(&self) -> (low: Vec<Invoice>)
        ensures
            low@ == low_valued(self.invoices_repo.invoices()),
    {
        let invoices = self.invoices_repo.all();
        let mut low: Vec<Invoice> = Vec::new();
        let mut i: usize = 0;
        while i < invoices.len()
            invariant
                0 <= i <= invoices@.len(),
                invoices@ == self.invoices_repo.invoices(),
                low@ == low_valued(invoices@.take(i as int)),
            decreases invoices@.len() - i,
        {
            if invoices[i].value < 100 {
                let invoice = invoices[i].clone();
                low.push(invoice);
            }
            proof {
                reveal(Seq::filter);
                assert(invoices@.take(i + 1).drop_last() =~= invoices@.take(i as int));
                assert(invoices@.take(i + 1).last() == invoices@[i as int]);
            }
            i = i + 1;
        }
        proof {
            assert(invoices@.take(invoices@.len() as int) =~= invoices@);
        }
        low
    }
}

} // verus!
