use data_escrow::escrow::EscrowEngine;
use data_escrow::ledger::conclude;
use data_escrow::ledger::Event;
use data_escrow::ledger::LedgerCall;
use data_escrow::ledger::LedgerReply;
use data_escrow::ledger::LockId;
use data_escrow::ledger::Settlement;
use data_escrow::types::EscrowError;
use std::collections::HashMap;

const COMPANY: u64 = 1;
const PERSON: u64 = 2;

/// A ledger for the tests: free balances, and locks by identifier and
/// account. It runs a settlement as one unit.
struct Ledger {
    free: HashMap<u64, u128>,
    locks: HashMap<([u8; 8], u64), (u128, u64, u8)>,
    lifted: usize,
}

impl Ledger {
    fn with_balances(balances: &[(u64, u128)]) -> Ledger {
        Ledger { free: balances.iter().copied().collect(), locks: HashMap::new(), lifted: 0 }
    }

    fn balance(&self, account: u64) -> u128 {
        self.free.get(&account).copied().unwrap_or(0)
    }

    fn lock(&self, id: LockId, account: u64) -> Option<(u128, u64, u8)> {
        self.locks.get(&(id.identifier(), account)).copied()
    }

    fn affordable(&self, calls: &[LedgerCall]) -> bool {
        let mut free = self.free.clone();
        for call in calls {
            if let LedgerCall::Transfer { from, to, amount } = *call {
                let available = free.get(&from).copied().unwrap_or(0);
                if available < amount {
                    return false;
                }
                free.insert(from, available - amount);
                let held = free.get(&to).copied().unwrap_or(0);
                free.insert(to, held + amount);
            }
        }
        true
    }

    fn run(&mut self, settlement: &Settlement) -> LedgerReply {
        if !self.affordable(&settlement.calls) {
            return LedgerReply::InsufficientFunds;
        }
        for call in &settlement.calls {
            match *call {
                LedgerCall::Transfer { from, to, amount } => {
                    let available = self.balance(from);
                    self.free.insert(from, available - amount);
                    let held = self.balance(to);
                    self.free.insert(to, held + amount);
                }
                LedgerCall::SetLock { id, account, amount, until, reasons } => {
                    self.locks.insert((id.identifier(), account), (amount, until, reasons));
                }
                LedgerCall::RemoveLock { id, account } => {
                    if self.locks.remove(&(id.identifier(), account)).is_some() {
                        self.lifted += 1;
                    }
                }
            }
        }
        LedgerReply::Accepted
    }

    fn settle(&mut self, settlement: Settlement) -> Result<Option<Event>, EscrowError> {
        let reply = self.run(&settlement);
        conclude(settlement, reply)
    }
}

fn market(payload: &[u8]) -> EscrowEngine {
    let mut engine = EscrowEngine::new();
    let id = engine.publish(COMPANY, b"wanted".to_vec(), b"schema-X".to_vec(), 100);
    assert_eq!(id, 0);
    engine.upload(PERSON, b"mine".to_vec(), payload.to_vec(), COMPANY, 0);
    engine
}

#[test]
fn scenario_buy_then_confirm() {
    let engine = market(b"real-data");
    let mut ledger = Ledger::with_balances(&[(COMPANY, 1_000), (PERSON, 50)]);

    let bought = engine.buy(COMPANY, PERSON, 0, 7).expect("a purchase");
    assert_eq!(ledger.settle(bought), Ok(Some(Event::Transfered(b"real-data".to_vec()))));
    assert_eq!(ledger.balance(COMPANY), 900);
    assert_eq!(ledger.balance(PERSON), 150);
    assert_eq!(ledger.lock(LockId::Person, PERSON), Some((100, 8, 31)));

    let confirmed = engine.confirm(COMPANY, PERSON, 0).expect("a confirmation");
    assert_eq!(ledger.settle(confirmed), Ok(Some(Event::Confirmed(PERSON, 0))));
    assert_eq!(ledger.lock(LockId::Person, PERSON), None);
    assert_eq!(ledger.lock(LockId::Company, COMPANY), None);
    assert_eq!(ledger.balance(COMPANY), 1_000 - 100);
    assert_eq!(ledger.balance(PERSON), 50 + 100);
}

#[test]
fn scenario_buy_then_tip_off_against_genuine_data() {
    let engine = market(b"real-data");
    let mut ledger = Ledger::with_balances(&[(COMPANY, 1_000), (PERSON, 0)]);

    let bought = engine.buy(COMPANY, PERSON, 0, 7).expect("a purchase");
    assert_eq!(ledger.settle(bought), Ok(Some(Event::Transfered(b"real-data".to_vec()))));
    assert_eq!(ledger.lock(LockId::Person, PERSON), Some((100, 8, 31)));

    let judged = engine.tip_off(COMPANY, PERSON, 0, 7).expect("a verdict");
    assert_eq!(ledger.settle(judged), Ok(Some(Event::TippedOff(true))));
    assert_eq!(ledger.lock(LockId::Company, COMPANY), Some((u128::MAX, 8, 31)));
    assert_eq!(ledger.lock(LockId::Person, PERSON), None);
    assert_eq!(ledger.balance(COMPANY), 900);
    assert_eq!(ledger.balance(PERSON), 100);
}

#[test]
fn scenario_tip_off_where_the_upload_is_the_reference() {
    let engine = market(b"schema-X");
    let mut ledger = Ledger::with_balances(&[(COMPANY, 1_000), (PERSON, 0)]);

    let bought = engine.buy(COMPANY, PERSON, 0, 7).expect("a purchase");
    assert_eq!(ledger.settle(bought), Ok(Some(Event::Transfered(b"schema-X".to_vec()))));
    let before = ledger.lock(LockId::Person, PERSON);
    assert_eq!(before, Some((100, 8, 31)));

    let judged = engine.tip_off(COMPANY, PERSON, 0, 9).expect("a verdict");
    assert_eq!(judged.calls, Vec::<LedgerCall>::new());
    assert_eq!(ledger.settle(judged), Ok(Some(Event::TippedOff(false))));
    assert_eq!(ledger.lock(LockId::Company, COMPANY), None);
    assert_eq!(ledger.lock(LockId::Person, PERSON), before);
    assert_eq!(ledger.lifted, 0);
}

#[test]
fn scenario_tip_off_without_an_earlier_purchase_leaves_no_lock() {
    let engine = market(b"schema-X");
    let mut ledger = Ledger::with_balances(&[(COMPANY, 1_000)]);
    let judged = engine.tip_off(COMPANY, PERSON, 0, 9).expect("a verdict");
    assert_eq!(ledger.settle(judged), Ok(Some(Event::TippedOff(false))));
    assert_eq!(ledger.lock(LockId::Person, PERSON), None);
    assert_eq!(ledger.lock(LockId::Company, COMPANY), None);
}

#[test]
fn purchase_that_the_company_cannot_afford_changes_nothing() {
    let engine = market(b"real-data");
    let mut ledger = Ledger::with_balances(&[(COMPANY, 99), (PERSON, 5)]);
    let bought = engine.buy(COMPANY, PERSON, 0, 7).expect("a purchase");
    assert_eq!(ledger.settle(bought), Err(EscrowError::InsufficientFunds));
    assert_eq!(ledger.balance(COMPANY), 99);
    assert_eq!(ledger.balance(PERSON), 5);
    assert_eq!(ledger.lock(LockId::Person, PERSON), None);
}

#[test]
fn lock_is_lifted_once_by_confirm_and_not_again_by_tip_off() {
    let engine = market(b"real-data");
    let mut ledger = Ledger::with_balances(&[(COMPANY, 1_000)]);
    let bought = engine.buy(COMPANY, PERSON, 0, 7).expect("a purchase");
    ledger.settle(bought).expect("an accepted purchase");
    assert_eq!(ledger.lifted, 0);

    let confirmed = engine.confirm(COMPANY, PERSON, 0).expect("a confirmation");
    ledger.settle(confirmed).expect("an accepted confirmation");
    assert_eq!(ledger.lifted, 1);

    let judged = engine.tip_off(COMPANY, PERSON, 0, 8).expect("a verdict");
    assert_eq!(ledger.settle(judged), Ok(Some(Event::TippedOff(true))));
    assert_eq!(ledger.lifted, 1);
    assert_eq!(ledger.lock(LockId::Person, PERSON), None);
}

#[test]
fn lock_is_lifted_once_by_tip_off_and_not_again_by_confirm() {
    let engine = market(b"real-data");
    let mut ledger = Ledger::with_balances(&[(COMPANY, 1_000)]);
    let bought = engine.buy(COMPANY, PERSON, 0, 7).expect("a purchase");
    ledger.settle(bought).expect("an accepted purchase");

    let judged = engine.tip_off(COMPANY, PERSON, 0, 8).expect("a verdict");
    ledger.settle(judged).expect("an accepted verdict");
    assert_eq!(ledger.lifted, 1);

    let confirmed = engine.confirm(COMPANY, PERSON, 0).expect("a confirmation");
    assert_eq!(ledger.settle(confirmed), Ok(Some(Event::Confirmed(PERSON, 0))));
    assert_eq!(ledger.lifted, 1);
    assert_eq!(ledger.lock(LockId::Person, PERSON), None);
}

#[test]
fn second_purchase_overwrites_the_lock_of_the_first() {
    let mut engine = market(b"real-data");
    assert_eq!(engine.publish(COMPANY, b"more".to_vec(), b"schema-Y".to_vec(), 30), 1);
    engine.upload(PERSON, b"second".to_vec(), b"other".to_vec(), COMPANY, 1);
    let mut ledger = Ledger::with_balances(&[(COMPANY, 1_000)]);
    let first = engine.buy(COMPANY, PERSON, 0, 7).expect("a purchase");
    ledger.settle(first).expect("an accepted purchase");
    let second = engine.buy(COMPANY, PERSON, 1, 9).expect("a purchase");
    ledger.settle(second).expect("an accepted purchase");
    assert_eq!(ledger.lock(LockId::Person, PERSON), Some((30, 10, 31)));
    assert_eq!(ledger.balance(PERSON), 130);
}
