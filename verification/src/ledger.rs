//! What the engine asks of the ledger, and what it tells the outside world.
//!
//! The ledger owns balances and locks. The engine never touches them: each
//! operation returns a [`Settlement`], the calls that the ledger is to run as
//! one unit and the event to emit once it has run them.

use crate::types::AccountId;
use crate::types::Balance;
use crate::types::BlockNumber;
use crate::types::EscrowError;
use frame_support::traits::LockIdentifier;
use frame_support::traits::WithdrawReasons;
use sp_runtime::traits::Bounded;
use sp_runtime::traits::One;
use vstd::prelude::*;

verus! {

/// The two locks that the engine places.
#[derive(Clone, Copy, Debug, PartialEq, Eq, Structural)]
pub enum LockId {
    /// Held on a company that raised a dispute against genuine data.
    Company,
    /// Held on a person's payout until the company has confirmed.
    Person,
}

/// The bytes of the identifier of the company lock, `cpn_lock`.
pub open spec fn company_lock_bytes() -> Seq<u8> {
    seq![0x63u8, 0x70u8, 0x6eu8, 0x5fu8, 0x6cu8, 0x6fu8, 0x63u8, 0x6bu8]
}

/// The bytes of the identifier of the person lock, `psn_lock`.
pub open spec fn person_lock_bytes() -> Seq<u8> {
    seq![0x70u8, 0x73u8, 0x6eu8, 0x5fu8, 0x6cu8, 0x6fu8, 0x63u8, 0x6bu8]
}

impl LockId {
    /// The identifier under which the ledger knows the lock.
    pub fn identifier(self) -> (id: LockIdentifier)
        ensures
            id@ == match self {
                LockId::Company => company_lock_bytes(),
                LockId::Person => person_lock_bytes(),
            },
    {
        match self {
            LockId::Company => {
                let id: LockIdentifier = [0x63, 0x70, 0x6e, 0x5f, 0x6c, 0x6f, 0x63, 0x6b];
                assert(id@ =~= company_lock_bytes());
                id
            },
            LockId::Person => {
                let id: LockIdentifier = [0x70, 0x73, 0x6e, 0x5f, 0x6c, 0x6f, 0x63, 0x6b];
                assert(id@ =~= person_lock_bytes());
                id
            },
        }
    }
}

/// Every withdraw reason at once, as the bits of a `WithdrawReasons`.
pub open spec fn all_reasons() -> u8 {
    0b0001_1111u8
}

/// `WithdrawReasons::all` of `frame_support::traits`, read through `bits`.
/// The type is a set of flags over `u8` with five reasons, one bit each from
/// the lowest bit up; `all` is their union and `bits` its raw value.
#[verifier::external_body]
pub(crate) fn every_withdraw_reason() -> (bits: u8)
    ensures
        bits == all_reasons(),
{
    WithdrawReasons::all().bits()
}

/// `Bounded::max_value`, which `sp_runtime::traits` hands on from
/// `num_traits`, at the balance type `u128`: the largest value of the type.
#[verifier::external_body]
pub(crate) fn largest_balance() -> (amount: Balance)
    ensures
        amount == Balance::MAX,
{
    <Balance as Bounded>::max_value()
}

/// `One::one`, which `sp_runtime::traits` hands on from `num_traits`, at the
/// block number type `u64`: the number one, the distance from one height to
/// the next.
#[verifier::external_body]
pub(crate) fn one_block() -> (step: BlockNumber)
    ensures
        step == 1,
{
    <BlockNumber as One>::one()
}

/// One call on the ledger.
#[derive(Clone, Copy, Debug, PartialEq, Eq, Structural)]
pub enum LedgerCall {
    /// Move `amount` from the free balance of `from` to `to`. The only call
    /// that the ledger can refuse.
    Transfer { from: AccountId, to: AccountId, amount: Balance },
    /// Hold `amount` on `account` under `id` until the height `until`, for
    /// the withdraw reasons whose bits are set in `reasons`. A lock that
    /// stands under `id` on that account is overwritten.
    SetLock { id: LockId, account: AccountId, amount: Balance, until: BlockNumber, reasons: u8 },
    /// Lift the lock that stands under `id` on `account`; nothing happens
    /// where there is none.
    RemoveLock { id: LockId, account: AccountId },
}

/// A notification that the engine hands out and never reads back.
#[derive(Debug, PartialEq, Eq)]
pub enum Event {
    /// A purchase went through; the bytes are the data that was bought.
    Transfered(Vec<u8>),
    /// The company confirmed the data of this person for this order.
    Confirmed(AccountId, usize),
    /// A dispute was judged; `true` where the data was found genuine.
    TippedOff(bool),
}

/// What an [`Event`] holds, as mathematical values.
pub enum EventView {
    Transfered(Seq<u8>),
    Confirmed(AccountId, usize),
    TippedOff(bool),
}

impl View for Event {
    type V = EventView;

    open spec fn view(&self) -> EventView {
        match *self {
            Event::Transfered(data) => EventView::Transfered(data@),
            Event::Confirmed(person, order_id) => EventView::Confirmed(person, order_id),
            Event::TippedOff(verdict) => EventView::TippedOff(verdict),
        }
    }
}

/// The view of an event that may be missing.
pub open spec fn event_view(event: Option<Event>) -> Option<EventView> {
    match event {
        Some(event) => Some(event@),
        None => None,
    }
}

/// What one operation of the engine asks for. The ledger runs `calls` in
/// order and as one unit: where it refuses the transfer, none of them takes
/// effect and no event is emitted.
#[derive(Debug, PartialEq, Eq)]
pub struct Settlement {
    pub calls: Vec<LedgerCall>,
    pub event: Option<Event>,
}

/// What a [`Settlement`] holds, as mathematical values.
pub struct SettlementView {
    pub calls: Seq<LedgerCall>,
    pub event: Option<EventView>,
}

impl View for Settlement {
    type V = SettlementView;

    open spec fn view(&self) -> SettlementView {
        SettlementView { calls: self.calls@, event: event_view(self.event) }
    }
}

/// The settlement that asks for nothing and tells nothing.
pub open spec fn nothing_to_settle() -> SettlementView {
    SettlementView { calls: Seq::empty(), event: None }
}

/// How the ledger answered a settlement.
#[derive(Clone, Copy, Debug, PartialEq, Eq, Structural)]
pub enum LedgerReply {
    /// Every call took effect.
    Accepted,
    /// The payer could not afford the transfer; no call took effect.
    InsufficientFunds,
}

/// What the operation reports once the ledger has answered: the event to
/// emit where the settlement was accepted, the ledger's refusal where it was
/// not.
pub open spec fn concluded(settlement: SettlementView, reply: LedgerReply) -> Result<
    Option<EventView>,
    EscrowError,
> {
    match reply {
        LedgerReply::Accepted => Ok(settlement.event),
        LedgerReply::InsufficientFunds => Err(EscrowError::InsufficientFunds),
    }
}

/// Ends an operation with the ledger's answer to its settlement. An accepted
/// settlement yields its event, if it has one; a refused one yields
/// [`EscrowError::InsufficientFunds`] and no event.
pub fn conclude(settlement: Settlement, reply: LedgerReply) -> (outcome: Result<
    Option<Event>,
    EscrowError,
>)
    ensures
        match outcome {
            Ok(event) => concluded(settlement@, reply) == Ok::<Option<EventView>, EscrowError>(
                event_view(event),
            ),
            Err(error) => concluded(settlement@, reply) == Err::<Option<EventView>, EscrowError>(
                error,
            ),
        },
{
    match reply {
        LedgerReply::Accepted => Ok(settlement.event),
        LedgerReply::InsufficientFunds => Err(EscrowError::InsufficientFunds),
    }
}

/// A hold on an account, as the ledger keeps it.
pub struct Lock {
    pub amount: Balance,
    pub until: BlockNumber,
    pub reasons: u8,
}

/// The locks that the ledger holds, by identifier and account.
pub type Locks = Map<(LockId, AccountId), Lock>;

/// The locks after the ledger has run `call`: a transfer leaves them alone,
/// `SetLock` writes over what stands under the same identifier and account,
/// `RemoveLock` lifts what stands there, if anything.
pub open spec fn after_call(locks: Locks, call: LedgerCall) -> Locks {
    match call {
        LedgerCall::Transfer { .. } => locks,
        LedgerCall::SetLock { id, account, amount, until, reasons } => locks.insert(
            (id, account),
            Lock { amount, until, reasons },
        ),
        LedgerCall::RemoveLock { id, account } => locks.remove((id, account)),
    }
}

/// The locks after the ledger has run `calls` in order.
pub open spec fn after_calls(locks: Locks, calls: Seq<LedgerCall>) -> Locks
    decreases calls.len(),
{
    if calls.len() == 0 {
        locks
    } else {
        after_calls(after_call(locks, calls[0]), calls.drop_first())
    }
}

/// The locks after the ledger has answered a settlement with `reply`: all of
/// its calls have run, or none.
pub open spec fn settled(locks: Locks, calls: Seq<LedgerCall>, reply: LedgerReply) -> Locks {
    match reply {
        LedgerReply::Accepted => after_calls(locks, calls),
        LedgerReply::InsufficientFunds => locks,
    }
}

/// Whether `call`, run on `locks`, lifts a lock that stands under `id` on
/// `account`.
pub open spec fn lifts(locks: Locks, call: LedgerCall, id: LockId, account: AccountId) -> bool {
    call == (LedgerCall::RemoveLock { id, account }) && locks.contains_key((id, account))
}

/// How many times the lock under `id` on `account` is lifted while the
/// ledger runs `calls` in order, starting from `locks`. A `RemoveLock` that
/// finds no lock lifts nothing.
pub open spec fn releases(locks: Locks, calls: Seq<LedgerCall>, id: LockId, account: AccountId)
    -> nat
    decreases calls.len(),
{
    if calls.len() == 0 {
        0
    } else {
        let here: nat = if lifts(locks, calls[0], id, account) {
            1
        } else {
            0
        };
        here + releases(after_call(locks, calls[0]), calls.drop_first(), id, account)
    }
}

/// Setting a lock twice, or lifting it twice, is setting or lifting it once.
pub proof fn law_lock_calls_are_idempotent(locks: Locks, call: LedgerCall)
    requires
        !(call is Transfer),
    ensures
        after_call(after_call(locks, call), call) == after_call(locks, call),
{
    assert(after_call(after_call(locks, call), call) =~= after_call(locks, call));
}

/// Running two runs of calls one after the other is running their
/// concatenation.
pub proof fn lemma_after_calls_concat(locks: Locks, first: Seq<LedgerCall>, second: Seq<LedgerCall>)
    ensures
        after_calls(locks, first + second) == after_calls(after_calls(locks, first), second),
    decreases first.len(),
{
    if first.len() == 0 {
        assert(first + second =~= second);
    } else {
        assert((first + second).drop_first() =~= first.drop_first() + second);
        lemma_after_calls_concat(after_call(locks, first[0]), first.drop_first(), second);
    }
}

/// The lifts of a concatenation are those of its first part and those of
/// its second part, which starts where the first part ended.
pub proof fn lemma_releases_concat(
    locks: Locks,
    first: Seq<LedgerCall>,
    second: Seq<LedgerCall>,
    id: LockId,
    account: AccountId,
)
    ensures
        releases(locks, first + second, id, account) == releases(locks, first, id, account)
            + releases(after_calls(locks, first), second, id, account),
    decreases first.len(),
{
    if first.len() == 0 {
        assert(first + second =~= second);
    } else {
        assert((first + second).drop_first() =~= first.drop_first() + second);
        lemma_releases_concat(
            after_call(locks, first[0]),
            first.drop_first(),
            second,
            id,
            account,
        );
    }
}

/// What `call` adds to the free balance of `account` where the ledger
/// accepts it: the amount for the receiver of a transfer, its negative for
/// the sender, nothing for anybody else and for a call on locks.
pub open spec fn credit(call: LedgerCall, account: AccountId) -> int {
    match call {
        LedgerCall::Transfer { from, to, amount } => {
            let received: int = if to == account {
                amount as int
            } else {
                0
            };
            let sent: int = if from == account {
                amount as int
            } else {
                0
            };
            received - sent
        },
        _ => 0,
    }
}

/// What `calls`, once accepted, have added to the free balance of
/// `account`.
pub open spec fn credited(calls: Seq<LedgerCall>, account: AccountId) -> int
    decreases calls.len(),
{
    if calls.len() == 0 {
        0
    } else {
        credit(calls[0], account) + credited(calls.drop_first(), account)
    }
}

/// Whether `call` touches no account but `company` and `person`.
pub open spec fn concerns_only(call: LedgerCall, company: AccountId, person: AccountId) -> bool {
    match call {
        LedgerCall::Transfer { from, to, .. } => (from == company || from == person) && (to
            == company || to == person),
        LedgerCall::SetLock { account, .. } => account == company || account == person,
        LedgerCall::RemoveLock { account, .. } => account == company || account == person,
    }
}

/// Whether `calls` can be run one by one and stopped at a refusal without
/// leaving a part of them done: the only call that the ledger can refuse,
/// a transfer, stands nowhere but at the front.
pub open spec fn pays_first(calls: Seq<LedgerCall>) -> bool {
    forall|i: int| 0 < i < calls.len() ==> !(#[trigger] calls[i] is Transfer)
}

} // verus!
