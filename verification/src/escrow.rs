//! The escrow engine: which ledger calls settle a purchase, a confirmation
//! or a dispute.
//!
//! A company buys what a person has uploaded against one of its orders: the
//! price goes to the person and is locked there at once. The company then
//! either confirms, which lifts the lock, or raises a dispute. A dispute is
//! judged on the spot. Where the data is found genuine the accusation was
//! false: the company is locked and the person released. Where it is not,
//! nothing is done and the person's lock stays until it expires.

use crate::content_store::content_at;
use crate::content_store::ContentStore;
use crate::data_registry::found_row;
use crate::data_registry::keys_resolve;
use crate::data_registry::lemma_found_row_resolves;
use crate::data_registry::lemma_update_keeps_keys;
use crate::data_registry::lemma_upload_keeps_keys;
use crate::data_registry::updated;
use crate::data_registry::uploaded;
use crate::data_registry::DataRegistry;
use crate::data_registry::RegistryView;
use crate::ledger::all_reasons;
use crate::ledger::every_withdraw_reason;
use crate::ledger::largest_balance;
use crate::ledger::nothing_to_settle;
use crate::ledger::one_block;
use crate::ledger::Event;
use crate::ledger::EventView;
use crate::ledger::LedgerCall;
use crate::ledger::LockId;
use crate::ledger::Settlement;
use crate::ledger::SettlementView;
use crate::order_book::list_view;
use crate::order_book::order_at;
use crate::order_book::orders_of;
use crate::order_book::published;
use crate::order_book::well_numbered;
use crate::order_book::BookView;
use crate::order_book::OrderBook;
use crate::types::AccountId;
use crate::types::Balance;
use crate::types::BlockNumber;
use crate::types::ContentKey;
use crate::types::DataMetadata;
use crate::types::DataMetadataView;
use crate::types::EscrowError;
use crate::types::OrderForm;
use crate::types::OrderFormView;
use vstd::prelude::*;

verus! {

/// The engine as a mathematical value.
pub struct EngineView {
    /// The orders of every company.
    pub orders: BookView,
    /// The rows of every person.
    pub registry: RegistryView,
    /// The stored payloads, by content key.
    pub contents: Seq<Seq<u8>>,
}

/// What holds of every engine: orders carry their position as id, and every
/// row's content key resolves in the store.
pub open spec fn valid(engine: EngineView) -> bool {
    &&& well_numbered(engine.orders)
    &&& keys_resolve(engine.registry, engine.contents.len())
}

/// The height at which a lock placed at height `now` expires: the next one.
pub open spec fn lock_until(now: BlockNumber) -> BlockNumber {
    (now + 1) as BlockNumber
}

/// The placeholder fraud heuristic: data is taken for genuine where it is
/// not empty and differs from the order's reference content.
pub open spec fn is_legitimate(uploaded: Seq<u8>, reference: Seq<u8>) -> bool {
    uploaded.len() > 0 && uploaded != reference
}

/// The calls of a purchase: the price moves from the company to the person
/// and is locked there until the next height.
pub open spec fn payment(company: AccountId, person: AccountId, price: Balance, now: BlockNumber)
    -> Seq<LedgerCall> {
    seq![
        LedgerCall::Transfer { from: company, to: person, amount: price },
        LedgerCall::SetLock {
            id: LockId::Person,
            account: person,
            amount: price,
            until: lock_until(now),
            reasons: all_reasons(),
        },
    ]
}

/// What `company` gets when it buys, at height `now`, what `person` has
/// uploaded against its order `order_id`.
///
/// A company cannot buy from itself, and it must have published. Where the
/// person holds no row against the order, or the company has no order with
/// that id, there is nothing to buy: the call succeeds with the empty
/// settlement.
pub open spec fn purchase(
    engine: EngineView,
    company: AccountId,
    person: AccountId,
    order_id: usize,
    now: BlockNumber,
) -> Result<SettlementView, EscrowError> {
    if company == person {
        Err(EscrowError::Authorization)
    } else if orders_of(engine.orders, company).len() == 0 {
        Err(EscrowError::NotFound)
    } else {
        match (
            found_row(engine.registry, person, company, order_id),
            order_at(engine.orders, company, order_id),
        ) {
            (Some(row), Some(order)) => Ok(
                SettlementView {
                    calls: payment(company, person, order.unit_price, now),
                    event: Some(EventView::Transfered(engine.contents[row.content_key as int])),
                },
            ),
            _ => Ok(nothing_to_settle()),
        }
    }
}

/// What `company` gets when it confirms the data of `person` for order
/// `order_id`: the person's lock is lifted, whether or not one stands.
pub open spec fn confirmation(company: AccountId, person: AccountId, order_id: usize) -> Result<
    SettlementView,
    EscrowError,
> {
    if company == person {
        Err(EscrowError::Authorization)
    } else {
        Ok(
            SettlementView {
                calls: seq![LedgerCall::RemoveLock { id: LockId::Person, account: person }],
                event: Some(EventView::Confirmed(person, order_id)),
            },
        )
    }
}

/// What a dispute is judged on: the bytes that `person` uploaded against
/// order `order_id` of `company`, and that order's reference content.
pub open spec fn evidence_of(
    engine: EngineView,
    company: AccountId,
    person: AccountId,
    order_id: usize,
) -> Result<(Seq<u8>, Seq<u8>), EscrowError> {
    if company == person {
        Err(EscrowError::Authorization)
    } else {
        match (
            found_row(engine.registry, person, company, order_id),
            order_at(engine.orders, company, order_id),
        ) {
            (Some(row), Some(order)) => Ok(
                (engine.contents[row.content_key as int], order.reference_content),
            ),
            _ => Err(EscrowError::NotFound),
        }
    }
}

/// The calls that punish a company for a false accusation, made at height
/// `now`, and release the accused person.
pub open spec fn punishment(company: AccountId, person: AccountId, now: BlockNumber) -> Seq<
    LedgerCall,
> {
    seq![
        LedgerCall::SetLock {
            id: LockId::Company,
            account: company,
            amount: Balance::MAX,
            until: lock_until(now),
            reasons: all_reasons(),
        },
        LedgerCall::RemoveLock { id: LockId::Person, account: person },
    ]
}

/// What follows from the verdict on a dispute of `company` against `person`.
/// Genuine data turns the dispute against the company; anything else leaves
/// every lock as it is. The verdict is reported either way.
pub open spec fn judged(company: AccountId, person: AccountId, genuine: bool, now: BlockNumber)
    -> SettlementView {
    SettlementView {
        calls: if genuine {
            punishment(company, person, now)
        } else {
            Seq::empty()
        },
        event: Some(EventView::TippedOff(genuine)),
    }
}

/// What `company` gets when it disputes, at height `now`, what `person` has
/// uploaded against its order `order_id`, judged by the placeholder
/// heuristic.
pub open spec fn dispute(
    engine: EngineView,
    company: AccountId,
    person: AccountId,
    order_id: usize,
    now: BlockNumber,
) -> Result<SettlementView, EscrowError> {
    match evidence_of(engine, company, person, order_id) {
        Ok((uploaded, reference)) => Ok(
            judged(company, person, is_legitimate(uploaded, reference), now),
        ),
        Err(error) => Err(error),
    }
}

/// Whether `left` and `right` hold the same bytes.
fn same_bytes(left: &Vec<u8>, right: &Vec<u8>) -> (same: bool)
    ensures
        same == (left@ == right@),
{
    if left.len() != right.len() {
        return false;
    }
    let mut i: usize = 0;
    while i < left.len()
        invariant
            i <= left.len(),
            left.len() == right.len(),
            forall|j: int| 0 <= j < i ==> left@[j] == right@[j],
        decreases left.len() - i,
    {
        if left[i] != right[i] {
            return false;
        }
        i += 1;
    }
    assert(left@ =~= right@);
    true
}

/// The placeholder fraud heuristic: `true` where `uploaded` is not empty and
/// differs from `reference`.
pub fn legitimate(uploaded: &Vec<u8>, reference: &Vec<u8>) -> (genuine: bool)
    ensures
        genuine == is_legitimate(uploaded@, reference@),
{
    uploaded.len() > 0 && !same_bytes(uploaded, reference)
}

/// A way to tell genuine data from fraud. The engine judges a dispute by
/// whichever check it is handed, so that a stronger one can take the place
/// of the placeholder without a change to the rest.
pub trait FraudCheck {
    /// Judges `uploaded` against the order's `reference` content: `true`
    /// for genuine data.
    fn check(&self, uploaded: &Vec<u8>, reference: &Vec<u8>) -> bool;
}

/// The placeholder heuristic as a [`FraudCheck`]: data is genuine where it
/// is not empty and differs from the reference content.
#[derive(Clone, Copy, Debug)]
pub struct ByteComparison;

impl FraudCheck for ByteComparison {
    fn check(&self, uploaded: &Vec<u8>, reference: &Vec<u8>) -> (genuine: bool)
        ensures
            genuine == is_legitimate(uploaded@, reference@),
    {
        legitimate(uploaded, reference)
    }
}

/// Whether `check` can return `genuine` on evidence with these bytes.
pub open spec fn may_judge<C: FraudCheck>(
    check: C,
    uploaded: Seq<u8>,
    reference: Seq<u8>,
    genuine: bool,
) -> bool {
    exists|bytes: Vec<u8>, pattern: Vec<u8>|
        bytes@ == uploaded && pattern@ == reference && #[trigger] call_ensures(
            C::check,
            (&check, &bytes, &pattern),
            genuine,
        )
}

/// The settlement that follows from the verdict `genuine` on a dispute that
/// `company` raised against `person` at height `now`.
pub fn judge(company: AccountId, person: AccountId, genuine: bool, now: BlockNumber) -> (settlement:
    Settlement)
    requires
        now < BlockNumber::MAX,
    ensures
        settlement@ == judged(company, person, genuine, now),
{
    let mut calls: Vec<LedgerCall> = Vec::new();
    if genuine {
        calls.push(
            LedgerCall::SetLock {
                id: LockId::Company,
                account: company,
                amount: largest_balance(),
                until: now + one_block(),
                reasons: every_withdraw_reason(),
            },
        );
        calls.push(LedgerCall::RemoveLock { id: LockId::Person, account: person });
        assert(calls@ =~= punishment(company, person, now));
    } else {
        assert(calls@ =~= Seq::<LedgerCall>::empty());
    }
    Settlement { calls, event: Some(Event::TippedOff(genuine)) }
}

/// The order book, the data registry and the content store, kept together
/// so that every row's content key resolves.
pub struct EscrowEngine {
    orders: OrderBook,
    registry: DataRegistry,
    store: ContentStore,
}

impl View for EscrowEngine {
    type V = EngineView;

    closed spec fn view(&self) -> EngineView {
        EngineView { orders: self.orders@, registry: self.registry@, contents: self.store@ }
    }
}

impl EscrowEngine {
    /// What every engine that this module hands out satisfies.
    pub open spec fn wf(&self) -> bool {
        valid(self@)
    }

    /// The engine in which nothing has been published or uploaded.
    pub fn new() -> (engine: EscrowEngine)
        ensures
            engine.wf(),
            engine@.orders == Map::<AccountId, Seq<OrderFormView>>::empty(),
            engine@.registry == Map::<AccountId, Seq<DataMetadataView>>::empty(),
            engine@.contents == Seq::<Seq<u8>>::empty(),
    {
        EscrowEngine {
            orders: OrderBook::new(),
            registry: DataRegistry::new(),
            store: ContentStore::new(),
        }
    }

    /// Publishes an order of `company` and returns its id: the number of
    /// orders that the company had before. Nothing else changes.
    pub fn publish(
        &mut self,
        company: AccountId,
        name: Vec<u8>,
        reference_content: Vec<u8>,
        unit_price: Balance,
    ) -> (id: usize)
        requires
            old(self).wf(),
        ensures
            final(self).wf(),
            id == orders_of(old(self)@.orders, company).len(),
            final(self)@ == (EngineView {
                orders: published(
                    old(self)@.orders,
                    company,
                    name@,
                    reference_content@,
                    unit_price,
                ),
                ..old(self)@
            }),
    {
        self.orders.publish(company, name, reference_content, unit_price)
    }

    /// The orders of `company`, oldest first; empty for a company that has
    /// published nothing.
    pub fn list(&self, company: AccountId) -> (orders: Vec<OrderForm>)
        ensures
            list_view(orders@) == orders_of(self@.orders, company),
    {
        self.orders.list(company)
    }

    /// Stores `payload` and appends to the rows of `person` one that links
    /// it to order `order_id` of `target_company`. The company and the order
    /// need not exist.
    pub fn upload(
        &mut self,
        person: AccountId,
        name: Vec<u8>,
        payload: Vec<u8>,
        target_company: AccountId,
        order_id: usize,
    )
        requires
            old(self).wf(),
        ensures
            final(self).wf(),
            final(self)@ == (EngineView {
                registry: uploaded(
                    old(self)@.registry,
                    person,
                    name@,
                    target_company,
                    order_id,
                    old(self)@.contents.len() as ContentKey,
                ),
                contents: old(self)@.contents.push(payload@),
                ..old(self)@
            }),
    {
        self.registry.upload(&mut self.store, person, name, payload, target_company, order_id);
        proof {
            old(self).store.lemma_keys_fit();
            lemma_upload_keeps_keys(
                old(self)@.registry,
                old(self)@.contents.len(),
                person,
                name@,
                target_company,
                order_id,
            );
        }
    }

    /// Replaces name and content of the row that `person` holds against
    /// order `order_id` of `target_company`. Without such a row the call
    /// fails with [`EscrowError::NotFound`] and nothing changes.
    pub fn update(
        &mut self,
        person: AccountId,
        name: Vec<u8>,
        payload: Vec<u8>,
        target_company: AccountId,
        order_id: usize,
    ) -> (done: Result<(), EscrowError>)
        requires
            old(self).wf(),
        ensures
            final(self).wf(),
            done is Ok <==> found_row(old(self)@.registry, person, target_company, order_id)
                is Some,
            done is Err ==> done == Err::<(), EscrowError>(EscrowError::NotFound),
            done is Err ==> final(self)@ == old(self)@,
            done is Ok ==> final(self)@ == (EngineView {
                registry: updated(
                    old(self)@.registry,
                    person,
                    name@,
                    target_company,
                    order_id,
                    old(self)@.contents.len() as ContentKey,
                ),
                contents: old(self)@.contents.push(payload@),
                ..old(self)@
            }),
    {
        let done = self.registry.update(
            &mut self.store,
            person,
            name,
            payload,
            target_company,
            order_id,
        );
        proof {
            old(self).store.lemma_keys_fit();
            if done is Ok {
                lemma_update_keeps_keys(
                    old(self)@.registry,
                    old(self)@.contents.len(),
                    person,
                    name@,
                    target_company,
                    order_id,
                );
            }
        }
        done
    }

    /// The row that `person` holds against order `order_id` of `company`,
    /// or `None` where there is none.
    pub fn find(&self, person: AccountId, company: AccountId, order_id: usize) -> (found: Option<
        &DataMetadata,
    >)
        ensures
            match found {
                Some(row) => found_row(self@.registry, person, company, order_id) == Some(row@),
                None => found_row(self@.registry, person, company, order_id) is None,
            },
    {
        self.registry.find(person, company, order_id)
    }

    /// The bytes stored under `key`, or `None` for a key that was never
    /// handed out.
    pub fn content(&self, key: ContentKey) -> (found: Option<&Vec<u8>>)
        ensures
            match found {
                Some(bytes) => content_at(self@.contents, key) == Some(bytes@),
                None => content_at(self@.contents, key) is None,
            },
    {
        self.store.get(key)
    }

    /// Decides the purchase, at height `now`, of what `person` has uploaded
    /// against order `order_id` of `company`.
    ///
    /// Fails with [`EscrowError::Authorization`] where the company is the
    /// person, and with [`EscrowError::NotFound`] where the company has
    /// published nothing. Where the person holds no row against the order,
    /// or the company has no order with that id, the call succeeds and the
    /// settlement is empty: nothing was bought. Otherwise the settlement
    /// pays the order's price to the person, locks it there until the next
    /// height, and reports the data that was bought.
    pub fn buy(&self, company: AccountId, person: AccountId, order_id: usize, now: BlockNumber)
        -> (outcome: Result<Settlement, EscrowError>)
        requires
            self.wf(),
            now < BlockNumber::MAX,
        ensures
            match outcome {
                Ok(settlement) => purchase(self@, company, person, order_id, now) == Ok::<
                    SettlementView,
                    EscrowError,
                >(settlement@),
                Err(error) => purchase(self@, company, person, order_id, now) == Err::<
                    SettlementView,
                    EscrowError,
                >(error),
            },
    {
        if company == person {
            return Err(EscrowError::Authorization);
        }
        if !self.orders.has_orders(company) {
            return Err(EscrowError::NotFound);
        }
        let row = self.registry.find(person, company, order_id);
        let order = self.orders.get(company, order_id);
        match (row, order) {
            (Some(row), Some(order)) => {
                proof {
                    lemma_found_row_resolves(
                        self@.registry,
                        self@.contents.len(),
                        person,
                        company,
                        order_id,
                    );
                }
                let data = self.store.fetch(row.content_key).clone();
                let mut calls: Vec<LedgerCall> = Vec::new();
                calls.push(
                    LedgerCall::Transfer { from: company, to: person, amount: order.unit_price },
                );
                calls.push(
                    LedgerCall::SetLock {
                        id: LockId::Person,
                        account: person,
                        amount: order.unit_price,
                        until: now + one_block(),
                        reasons: every_withdraw_reason(),
                    },
                );
                assert(calls@ =~= payment(company, person, order.unit_price, now));
                Ok(Settlement { calls, event: Some(Event::Transfered(data)) })
            },
            _ => {
                let calls: Vec<LedgerCall> = Vec::new();
                assert(calls@ =~= Seq::<LedgerCall>::empty());
                Ok(Settlement { calls, event: None })
            },
        }
    }

    /// Decides the confirmation by `company` of the data of `person` for
    /// order `order_id`.
    ///
    /// Fails with [`EscrowError::Authorization`] where the company is the
    /// person. Otherwise the settlement lifts the person's lock and reports
    /// the confirmation. Whether a lock stands is the ledger's to know:
    /// lifting one that does not is harmless there, so the engine asks for
    /// no proof of an earlier purchase.
    pub fn confirm(&self, company: AccountId, person: AccountId, order_id: usize) -> (outcome:
        Result<Settlement, EscrowError>)
        ensures
            match outcome {
                Ok(settlement) => confirmation(company, person, order_id) == Ok::<
                    SettlementView,
                    EscrowError,
                >(settlement@),
                Err(error) => confirmation(company, person, order_id) == Err::<
                    SettlementView,
                    EscrowError,
                >(error),
            },
    {
        if company == person {
            return Err(EscrowError::Authorization);
        }
        let mut calls: Vec<LedgerCall> = Vec::new();
        calls.push(LedgerCall::RemoveLock { id: LockId::Person, account: person });
        assert(calls@ =~= seq![LedgerCall::RemoveLock { id: LockId::Person, account: person }]);
        Ok(Settlement { calls, event: Some(Event::Confirmed(person, order_id)) })
    }

    /// What a dispute of `company` against `person` over order `order_id`
    /// is judged on: the uploaded bytes first, the order's reference content
    /// second.
    ///
    /// Fails with [`EscrowError::Authorization`] where the company is the
    /// person, and with [`EscrowError::NotFound`] where the person holds no
    /// row against the order or the company has no order with that id.
    pub fn evidence(&self, company: AccountId, person: AccountId, order_id: usize) -> (outcome:
        Result<(&Vec<u8>, &Vec<u8>), EscrowError>)
        requires
            self.wf(),
        ensures
            match outcome {
                Ok((uploaded, reference)) => evidence_of(self@, company, person, order_id) == Ok::<
                    (Seq<u8>, Seq<u8>),
                    EscrowError,
                >((uploaded@, reference@)),
                Err(error) => evidence_of(self@, company, person, order_id) == Err::<
                    (Seq<u8>, Seq<u8>),
                    EscrowError,
                >(error),
            },
    {
        if company == person {
            return Err(EscrowError::Authorization);
        }
        let row = self.registry.find(person, company, order_id);
        let order = self.orders.get(company, order_id);
        match (row, order) {
            (Some(row), Some(order)) => {
                proof {
                    lemma_found_row_resolves(
                        self@.registry,
                        self@.contents.len(),
                        person,
                        company,
                        order_id,
                    );
                }
                Ok((self.store.fetch(row.content_key), &order.reference_content))
            },
            _ => Err(EscrowError::NotFound),
        }
    }

    /// Decides the dispute that `company` raises, at height `now`, against
    /// what `person` has uploaded for order `order_id`, by the verdict of
    /// `check`.
    ///
    /// Fails as [`EscrowEngine::evidence`] does, and then without asking
    /// `check`. Otherwise the settlement is what [`judge`] makes of the
    /// verdict that `check` gave on the evidence.
    pub fn tip_off_with<C: FraudCheck>(
        &self,
        check: &C,
        company: AccountId,
        person: AccountId,
        order_id: usize,
        now: BlockNumber,
    ) -> (outcome: Result<Settlement, EscrowError>)
        requires
            self.wf(),
            now < BlockNumber::MAX,
        ensures
            match outcome {
                Ok(settlement) => {
                    &&& evidence_of(self@, company, person, order_id) matches Ok(
                        (uploaded, reference),
                    )
                    &&& settlement@.event matches Some(EventView::TippedOff(genuine))
                    &&& settlement@ == judged(company, person, genuine, now)
                    &&& may_judge(*check, uploaded, reference, genuine)
                },
                Err(error) => evidence_of(self@, company, person, order_id) == Err::<
                    (Seq<u8>, Seq<u8>),
                    EscrowError,
                >(error),
            },
    {
        match self.evidence(company, person, order_id) {
            Ok((uploaded, reference)) => {
                let genuine = check.check(uploaded, reference);
                Ok(judge(company, person, genuine, now))
            },
            Err(error) => Err(error),
        }
    }

    /// Decides the dispute that `company` raises, at height `now`, against
    /// what `person` has uploaded for order `order_id`, by the placeholder
    /// heuristic of [`legitimate`].
    ///
    /// Fails as [`EscrowEngine::evidence`] does. Otherwise the verdict is
    /// reported; where the data is genuine the settlement also locks the
    /// company and lifts the person's lock, and where it is not the
    /// settlement asks nothing of the ledger.
    pub fn tip_off(&self, company: AccountId, person: AccountId, order_id: usize, now: BlockNumber)
        -> (outcome: Result<Settlement, EscrowError>)
        requires
            self.wf(),
            now < BlockNumber::MAX,
        ensures
            match outcome {
                Ok(settlement) => dispute(self@, company, person, order_id, now) == Ok::<
                    SettlementView,
                    EscrowError,
                >(settlement@),
                Err(error) => dispute(self@, company, person, order_id, now) == Err::<
                    SettlementView,
                    EscrowError,
                >(error),
            },
    {
        self.tip_off_with(&ByteComparison, company, person, order_id, now)
    }
}

} // verus!
