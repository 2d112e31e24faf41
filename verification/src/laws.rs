//! What holds of the engine across calls, stated over the mathematical
//! values that the contracts of the operations speak of.

use crate::data_registry::found_row;
use crate::escrow::confirmation;
use crate::escrow::dispute;
use crate::escrow::evidence_of;
use crate::escrow::is_legitimate;
use crate::escrow::judged;
use crate::escrow::lock_until;
use crate::escrow::payment;
use crate::escrow::punishment;
use crate::escrow::purchase;
use crate::escrow::EngineView;
use crate::ledger::after_calls;
use crate::ledger::all_reasons;
use crate::ledger::concerns_only;
use crate::ledger::concluded;
use crate::ledger::credited;
use crate::ledger::lemma_after_calls_concat;
use crate::ledger::lemma_releases_concat;
use crate::ledger::pays_first;
use crate::ledger::releases;
use crate::ledger::settled;
use crate::ledger::EventView;
use crate::ledger::LedgerCall;
use crate::ledger::LedgerReply;
use crate::ledger::Lock;
use crate::ledger::LockId;
use crate::ledger::Locks;
use crate::ledger::SettlementView;
use crate::order_book::order_at;
use crate::types::AccountId;
use crate::types::Balance;
use crate::types::BlockNumber;
use crate::types::EscrowError;
use vstd::prelude::*;

verus! {

/// A purchase that buys something pays the order's price from the company to
/// the person and locks exactly that amount on the person until the next
/// height; the event carries the uploaded bytes. The transfer comes first,
/// so a ledger that stops at a refused transfer has run none of the calls.
pub proof fn law_purchase_pays_and_locks(
    engine: EngineView,
    company: AccountId,
    person: AccountId,
    order_id: usize,
    now: BlockNumber,
)
    requires
        purchase(engine, company, person, order_id, now) is Ok,
        purchase(engine, company, person, order_id, now).unwrap().calls.len() > 0,
    ensures
        ({
            let bought = purchase(engine, company, person, order_id, now).unwrap();
            let row = found_row(engine.registry, person, company, order_id).unwrap();
            let order = order_at(engine.orders, company, order_id).unwrap();
            &&& company != person
            &&& bought.calls == payment(company, person, order.unit_price, now)
            &&& bought.calls[0] == (LedgerCall::Transfer {
                from: company,
                to: person,
                amount: order.unit_price,
            })
            &&& bought.calls[1] == (LedgerCall::SetLock {
                id: LockId::Person,
                account: person,
                amount: order.unit_price,
                until: lock_until(now),
                reasons: all_reasons(),
            })
            &&& bought.event == Some(
                EventView::Transfered(engine.contents[row.content_key as int]),
            )
        }),
{
}

/// A settlement takes effect as a whole or not at all: refused, it leaves
/// every lock as it was and the operation ends with
/// [`EscrowError::InsufficientFunds`] and without an event; accepted, all of
/// its calls have run and the operation ends with its event.
pub proof fn law_settlement_is_all_or_nothing(locks: Locks, settlement: SettlementView)
    ensures
        settled(locks, settlement.calls, LedgerReply::InsufficientFunds) == locks,
        concluded(settlement, LedgerReply::InsufficientFunds) == Err::<
            Option<EventView>,
            EscrowError,
        >(EscrowError::InsufficientFunds),
        settled(locks, settlement.calls, LedgerReply::Accepted) == after_calls(
            locks,
            settlement.calls,
        ),
        concluded(settlement, LedgerReply::Accepted) == Ok::<Option<EventView>, EscrowError>(
            settlement.event,
        ),
{
}

/// Whatever the engine decides, its settlement touches no account but the
/// company and the person of the call, and can be stopped at a refused
/// transfer with nothing done.
pub proof fn law_settlements_concern_the_parties_only(
    engine: EngineView,
    company: AccountId,
    person: AccountId,
    order_id: usize,
    now: BlockNumber,
    genuine: bool,
)
    ensures
        purchase(engine, company, person, order_id, now) matches Ok(bought) ==> pays_first(
            bought.calls,
        ) && forall|i: int|
            0 <= i < bought.calls.len() ==> concerns_only(
                #[trigger] bought.calls[i],
                company,
                person,
            ),
        confirmation(company, person, order_id) matches Ok(confirmed) ==> pays_first(
            confirmed.calls,
        ) && forall|i: int|
            0 <= i < confirmed.calls.len() ==> concerns_only(
                #[trigger] confirmed.calls[i],
                company,
                person,
            ),
        pays_first(judged(company, person, genuine, now).calls),
        forall|i: int|
            0 <= i < judged(company, person, genuine, now).calls.len() ==> concerns_only(
                #[trigger] judged(company, person, genuine, now).calls[i],
                company,
                person,
            ),
{
}

/// Only a purchase moves funds, and it moves exactly the order's price from
/// the company to the person: the company's balance falls by the price, the
/// person's rises by it, and nobody else's changes. A confirmation and a
/// dispute, whatever its verdict, leave every balance as it is.
pub proof fn law_only_a_purchase_moves_funds(
    engine: EngineView,
    company: AccountId,
    person: AccountId,
    order_id: usize,
    now: BlockNumber,
    genuine: bool,
    account: AccountId,
)
    ensures
        purchase(engine, company, person, order_id, now) matches Ok(bought) ==> if bought.calls.len()
            > 0 {
            let price = order_at(engine.orders, company, order_id).unwrap().unit_price;
            &&& credited(bought.calls, company) == -price
            &&& credited(bought.calls, person) == price
            &&& account != company && account != person ==> credited(bought.calls, account) == 0
        } else {
            credited(bought.calls, account) == 0
        },
        confirmation(company, person, order_id) matches Ok(confirmed) ==> credited(
            confirmed.calls,
            account,
        ) == 0,
        credited(judged(company, person, genuine, now).calls, account) == 0,
{
    reveal_with_fuel(credited, 3);
    if purchase(engine, company, person, order_id, now) is Ok {
        let bought = purchase(engine, company, person, order_id, now).unwrap();
        if bought.calls.len() > 0 {
            assert(bought.calls.drop_first().drop_first() =~= Seq::<LedgerCall>::empty());
        }
    }
    if confirmation(company, person, order_id) is Ok {
        let confirmed = confirmation(company, person, order_id).unwrap();
        assert(confirmed.calls.drop_first() =~= Seq::<LedgerCall>::empty());
    }
    let calls = judged(company, person, genuine, now).calls;
    if genuine {
        assert(calls.drop_first().drop_first() =~= Seq::<LedgerCall>::empty());
    }
}

/// One thing that a company does about a purchase once it is made.
pub enum Resolution {
    /// It confirms the data.
    Confirm,
    /// It raises a dispute at height `now`, and the data is judged genuine
    /// or not.
    Dispute { genuine: bool, now: BlockNumber },
}

impl Resolution {
    /// Whether the step ends the escrow: a confirmation does, and so does a
    /// dispute that finds the data genuine.
    pub open spec fn resolves(self) -> bool {
        match self {
            Resolution::Confirm => true,
            Resolution::Dispute { genuine, .. } => genuine,
        }
    }

    /// The calls that the engine asks for at this step of `company` against
    /// `person` over order `order_id`.
    pub open spec fn calls(self, company: AccountId, person: AccountId, order_id: usize) -> Seq<
        LedgerCall,
    > {
        match self {
            Resolution::Confirm => match confirmation(company, person, order_id) {
                Ok(settlement) => settlement.calls,
                Err(_) => Seq::empty(),
            },
            Resolution::Dispute { genuine, now } => judged(company, person, genuine, now).calls,
        }
    }
}

/// The calls of `steps`, one step after the other.
pub open spec fn calls_of(
    steps: Seq<Resolution>,
    company: AccountId,
    person: AccountId,
    order_id: usize,
) -> Seq<LedgerCall>
    decreases steps.len(),
{
    if steps.len() == 0 {
        Seq::empty()
    } else {
        steps[0].calls(company, person, order_id) + calls_of(
            steps.drop_first(),
            company,
            person,
            order_id,
        )
    }
}

/// Whether one of `steps` ends the escrow.
pub open spec fn some_resolves(steps: Seq<Resolution>) -> bool {
    exists|i: int| 0 <= i < steps.len() && (#[trigger] steps[i]).resolves()
}

/// What one step does to the person's lock: a step that resolves lifts it
/// if it stands, and any other step leaves it as it is.
proof fn lemma_step_on_person_lock(
    locks: Locks,
    step: Resolution,
    company: AccountId,
    person: AccountId,
    order_id: usize,
)
    requires
        company != person,
    ensures
        ({
            let key = (LockId::Person, person);
            let calls = step.calls(company, person, order_id);
            let after = after_calls(locks, calls);
            &&& releases(locks, calls, LockId::Person, person) == if step.resolves()
                && locks.contains_key(key) {
                1nat
            } else {
                0nat
            }
            &&& after.contains_key(key) == (locks.contains_key(key) && !step.resolves())
            &&& after.contains_key(key) ==> after[key] == locks[key]
        }),
{
    reveal_with_fuel(after_calls, 3);
    reveal_with_fuel(releases, 3);
    let calls = step.calls(company, person, order_id);
    let lift = LedgerCall::RemoveLock { id: LockId::Person, account: person };
    match step {
        Resolution::Confirm => {
            assert(calls =~= seq![lift]);
            assert(calls.drop_first() =~= Seq::<LedgerCall>::empty());
        },
        Resolution::Dispute { genuine, now } => {
            if genuine {
                assert(calls =~= punishment(company, person, now));
                assert(calls.drop_first() =~= seq![lift]);
                assert(calls.drop_first().drop_first() =~= Seq::<LedgerCall>::empty());
            } else {
                assert(calls =~= Seq::<LedgerCall>::empty());
            }
        },
    }
}

/// What a run of steps does to the person's lock, from any locks.
proof fn lemma_steps_on_person_lock(
    locks: Locks,
    steps: Seq<Resolution>,
    company: AccountId,
    person: AccountId,
    order_id: usize,
)
    requires
        company != person,
    ensures
        ({
            let key = (LockId::Person, person);
            let calls = calls_of(steps, company, person, order_id);
            let after = after_calls(locks, calls);
            &&& releases(locks, calls, LockId::Person, person) == if some_resolves(steps)
                && locks.contains_key(key) {
                1nat
            } else {
                0nat
            }
            &&& after.contains_key(key) == (locks.contains_key(key) && !some_resolves(steps))
            &&& after.contains_key(key) ==> after[key] == locks[key]
        }),
    decreases steps.len(),
{
    if steps.len() == 0 {
    } else {
        let head = steps[0].calls(company, person, order_id);
        let rest = steps.drop_first();
        let between = after_calls(locks, head);
        lemma_step_on_person_lock(locks, steps[0], company, person, order_id);
        lemma_steps_on_person_lock(between, rest, company, person, order_id);
        lemma_after_calls_concat(locks, head, calls_of(rest, company, person, order_id));
        lemma_releases_concat(
            locks,
            head,
            calls_of(rest, company, person, order_id),
            LockId::Person,
            person,
        );
        if some_resolves(steps) {
            let i = choose|i: int| 0 <= i < steps.len() && (#[trigger] steps[i]).resolves();
            if i > 0 {
                assert(rest[i - 1] == steps[i]);
            }
        }
        if some_resolves(rest) {
            let i = choose|i: int| 0 <= i < rest.len() && (#[trigger] rest[i]).resolves();
            assert(steps[i + 1] == rest[i]);
        }
        if steps[0].resolves() {
            assert(some_resolves(steps));
        }
    }
}

/// The lock that a purchase sets on the person is lifted exactly once,
/// whatever the company does afterwards and in whatever order: by the first
/// confirmation or dispute over genuine data, and by nothing after it.
/// Until such a step the lock stands as the purchase set it; a dispute over
/// data that is not genuine does not touch it.
pub proof fn law_lock_is_lifted_exactly_once(
    engine: EngineView,
    locks: Locks,
    company: AccountId,
    person: AccountId,
    order_id: usize,
    bought_at: BlockNumber,
    steps: Seq<Resolution>,
)
    requires
        purchase(engine, company, person, order_id, bought_at) is Ok,
        purchase(engine, company, person, order_id, bought_at).unwrap().calls.len() > 0,
    ensures
        ({
            let bought = purchase(engine, company, person, order_id, bought_at).unwrap();
            let price = order_at(engine.orders, company, order_id).unwrap().unit_price;
            let key = (LockId::Person, person);
            let held = settled(locks, bought.calls, LedgerReply::Accepted);
            let calls = calls_of(steps, company, person, order_id);
            let after = after_calls(held, calls);
            &&& held.contains_key(key)
            &&& held[key] == (Lock {
                amount: price,
                until: lock_until(bought_at),
                reasons: all_reasons(),
            })
            &&& some_resolves(steps) ==> releases(held, calls, LockId::Person, person) == 1
                && !after.contains_key(key)
            &&& !some_resolves(steps) ==> releases(held, calls, LockId::Person, person) == 0
                && after.contains_key(key) && after[key] == held[key]
        }),
{
    let bought = purchase(engine, company, person, order_id, bought_at).unwrap();
    let held = after_calls(locks, bought.calls);
    reveal_with_fuel(after_calls, 3);
    assert(bought.calls.drop_first().drop_first() =~= Seq::<LedgerCall>::empty());
    lemma_steps_on_person_lock(held, steps, company, person, order_id);
}

/// A dispute over data that equals the order's reference content, or over
/// an empty upload, finds the data not genuine: the settlement asks nothing
/// of the ledger, so no lock is placed on the company and every lock stays
/// as it was, and the verdict `false` is reported.
pub proof fn law_fraud_leaves_the_company_unpunished(
    engine: EngineView,
    locks: Locks,
    company: AccountId,
    person: AccountId,
    order_id: usize,
    now: BlockNumber,
)
    requires
        evidence_of(engine, company, person, order_id) is Ok,
        ({
            let (uploaded, reference) = evidence_of(engine, company, person, order_id).unwrap();
            uploaded == reference || uploaded.len() == 0
        }),
    ensures
        dispute(engine, company, person, order_id, now) == Ok::<SettlementView, EscrowError>(
            SettlementView { calls: Seq::empty(), event: Some(EventView::TippedOff(false)) },
        ),
        after_calls(locks, Seq::empty()) == locks,
{
}

/// A dispute over genuine data turns against the company: the settlement
/// locks the company's whole balance until the next height and lifts the
/// person's lock, and the verdict `true` is reported.
pub proof fn law_false_accusation_is_punished(
    engine: EngineView,
    locks: Locks,
    company: AccountId,
    person: AccountId,
    order_id: usize,
    now: BlockNumber,
)
    requires
        evidence_of(engine, company, person, order_id) is Ok,
        ({
            let (uploaded, reference) = evidence_of(engine, company, person, order_id).unwrap();
            is_legitimate(uploaded, reference)
        }),
    ensures
        ({
            let after = after_calls(locks, punishment(company, person, now));
            &&& dispute(engine, company, person, order_id, now) == Ok::<
                SettlementView,
                EscrowError,
            >(
                SettlementView {
                    calls: punishment(company, person, now),
                    event: Some(EventView::TippedOff(true)),
                },
            )
            &&& after.contains_key((LockId::Company, company))
            &&& after[(LockId::Company, company)] == (Lock {
                amount: Balance::MAX,
                until: lock_until(now),
                reasons: all_reasons(),
            })
            &&& !after.contains_key((LockId::Person, person))
        }),
{
    reveal_with_fuel(after_calls, 3);
    let calls = punishment(company, person, now);
    assert(calls.drop_first().drop_first() =~= Seq::<LedgerCall>::empty());
}

} // verus!
