use shoplib::invoice_sending::{
    InMemoryInvoicesRepository, Invoice, InvoiceFilter, RecordingSap, SapInvoiceSender,
};

#[test]
fn sends_low_valued_invoices_to_sap() {
    let mauricio = Invoice::new(String::from("Mauricio"), 20);
    let steve = Invoice::new(String::from("Steve"), 99);

    let invoices_repo = InMemoryInvoicesRepository::new(vec![mauricio.clone(), steve.clone()]);
    let invoice_filter = InvoiceFilter::new(invoices_repo);

    let mut sender = SapInvoiceSender::new(invoice_filter, RecordingSap::new());

    sender.send_low_valued_invoices();

    assert_eq!(vec![mauricio, steve], *sender.sap.sent_invoices());
}

#[test]
fn main_should_return_empty_list_when_there_are_no_invoices_to_filter() {
    let invoices_repo = InMemoryInvoicesRepository::new(vec![]);

    let invoice_filter = InvoiceFilter::new(invoices_repo);

    assert!(invoice_filter.low_value_invoices().is_empty());
}

#[test]
fn main_single_low_value_invoice() {
    let john = Invoice::new(String::from("John"), 99);

    let invoices_repo = InMemoryInvoicesRepository::new(vec![john.clone()]);

    let invoice_filter = InvoiceFilter::new(invoices_repo);

    assert_eq!(vec![john], invoice_filter.low_value_invoices());
}

#[test]
fn main_single_high_value_invoice() {
    let john = Invoice::new(String::from("John"), 100);

    let invoices_repo = InMemoryInvoicesRepository::new(vec![john.clone()]);

    let invoice_filter = InvoiceFilter::new(invoices_repo);

    assert!(invoice_filter.low_value_invoices().is_empty());
}

#[test]
fn main_low_value_and_high_value_invoices() {
    let mauricio = Invoice::new(String::from("Mauricio"), 20);
    let steve = Invoice::new(String::from("Steve"), 99);
    let frank = Invoice::new(String::from("Frank"), 100);

    let invoices_repo = InMemoryInvoicesRepository::new(vec![
        mauricio.clone(),
        steve.clone(),
        frank.clone(),
    ]);

    let invoice_filter = InvoiceFilter::new(invoices_repo);

    let actual = invoice_filter.low_value_invoices();

    assert!(actual.contains(&mauricio));
    assert!(actual.contains(&steve));
}
