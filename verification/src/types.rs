//! The records that companies and people leave with the engine, and the
//! errors with which the engine turns a call down.

use vstd::prelude::*;

verus! {

/// An account on the ledger, already authenticated by the caller.
pub type AccountId = u64;

/// An amount of the ledger's currency.
pub type Balance = u128;

/// A height of the ledger.
pub type BlockNumber = u64;

/// The key under which the content store keeps a payload.
pub type ContentKey = u64;

/// Why the engine turned a call down. A call that is turned down has changed
/// nothing.
#[derive(Clone, Copy, Debug, PartialEq, Eq, Structural)]
pub enum EscrowError {
    /// The acting account is the counterparty it must differ from.
    Authorization,
    /// The company has no order list, the person no matching row, or the
    /// list no order with that id.
    NotFound,
    /// The ledger refused the payment.
    InsufficientFunds,
}

/// A company's standing request for data, with the reference content that
/// describes it and the price paid for one submission.
#[derive(Debug, PartialEq, Eq)]
pub struct OrderForm {
    /// Position of the order in its company's list.
    pub id: usize,
    pub name: Vec<u8>,
    pub reference_content: Vec<u8>,
    pub unit_price: Balance,
}

/// What an [`OrderForm`] holds, as mathematical values.
pub struct OrderFormView {
    pub id: usize,
    pub name: Seq<u8>,
    pub reference_content: Seq<u8>,
    pub unit_price: Balance,
}

impl View for OrderForm {
    type V = OrderFormView;

    open spec fn view(&self) -> OrderFormView {
        OrderFormView {
            id: self.id,
            name: self.name@,
            reference_content: self.reference_content@,
            unit_price: self.unit_price,
        }
    }
}

impl Clone for OrderForm {
    fn clone(&self) -> (copy: OrderForm)
        ensures
            copy@ == self@,
    {
        OrderForm {
            id: self.id,
            name: self.name.clone(),
            reference_content: self.reference_content.clone(),
            unit_price: self.unit_price,
        }
    }
}

/// A person's record of data submitted against one order of one company.
#[derive(Debug, PartialEq, Eq)]
pub struct DataMetadata {
    pub name: Vec<u8>,
    pub target_company: AccountId,
    pub order_id: usize,
    /// Where the content store keeps the submitted bytes.
    pub content_key: ContentKey,
}

/// What a [`DataMetadata`] holds, as mathematical values.
pub struct DataMetadataView {
    pub name: Seq<u8>,
    pub target_company: AccountId,
    pub order_id: usize,
    pub content_key: ContentKey,
}

impl View for DataMetadata {
    type V = DataMetadataView;

    open spec fn view(&self) -> DataMetadataView {
        DataMetadataView {
            name: self.name@,
            target_company: self.target_company,
            order_id: self.order_id,
            content_key: self.content_key,
        }
    }
}

impl Clone for DataMetadata {
    fn clone(&self) -> (copy: DataMetadata)
        ensures
            copy@ == self@,
    {
        DataMetadata {
            name: self.name.clone(),
            target_company: self.target_company,
            order_id: self.order_id,
            content_key: self.content_key,
        }
    }
}

impl DataMetadataView {
    /// Whether the row was submitted against order `order_id` of `company`.
    pub open spec fn targets(self, company: AccountId, order_id: usize) -> bool {
        self.target_company == company && self.order_id == order_id
    }
}

} // verus!
