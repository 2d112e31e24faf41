use data_escrow::escrow::judge;
use data_escrow::escrow::legitimate;
use data_escrow::escrow::ByteComparison;
use data_escrow::escrow::EscrowEngine;
use data_escrow::escrow::FraudCheck;
use data_escrow::ledger::Event;
use data_escrow::ledger::LedgerCall;
use data_escrow::ledger::LockId;
use data_escrow::ledger::Settlement;
use data_escrow::types::DataMetadata;
use data_escrow::types::EscrowError;
use data_escrow::types::OrderForm;
use frame_support::traits::WithdrawReasons;

const COMPANY: u64 = 1;
const PERSON: u64 = 2;
const STRANGER: u64 = 3;
const NOW: u64 = 7;

fn all_reasons() -> u8 {
    WithdrawReasons::all().bits()
}

/// Company 1 has published order 0 with reference `schema-X` at price 100,
/// and person 2 has uploaded `payload` against it.
fn market(payload: &[u8]) -> EscrowEngine {
    let mut engine = EscrowEngine::new();
    let id = engine.publish(COMPANY, b"wanted".to_vec(), b"schema-X".to_vec(), 100);
    assert_eq!(id, 0);
    engine.upload(PERSON, b"mine".to_vec(), payload.to_vec(), COMPANY, 0);
    engine
}

fn empty_settlement() -> Settlement {
    Settlement { calls: Vec::new(), event: None }
}

fn punishment(company: u64, person: u64, now: u64) -> Vec<LedgerCall> {
    vec![
        LedgerCall::SetLock {
            id: LockId::Company,
            account: company,
            amount: u128::MAX,
            until: now + 1,
            reasons: all_reasons(),
        },
        LedgerCall::RemoveLock { id: LockId::Person, account: person },
    ]
}

#[test]
fn legitimate_wants_data_that_is_not_empty_and_not_the_reference() {
    assert!(legitimate(&b"real-data".to_vec(), &b"schema-X".to_vec()));
    assert!(!legitimate(&b"schema-X".to_vec(), &b"schema-X".to_vec()));
    assert!(!legitimate(&Vec::new(), &b"schema-X".to_vec()));
    assert!(!legitimate(&Vec::new(), &Vec::new()));
    assert!(legitimate(&b"x".to_vec(), &Vec::new()));
}

#[test]
fn legitimate_tells_a_prefix_and_a_changed_byte_from_the_reference() {
    assert!(legitimate(&b"schema-".to_vec(), &b"schema-X".to_vec()));
    assert!(legitimate(&b"schema-XX".to_vec(), &b"schema-X".to_vec()));
    assert!(legitimate(&b"schema-Y".to_vec(), &b"schema-X".to_vec()));
    assert!(legitimate(&b"Xchema-X".to_vec(), &b"schema-X".to_vec()));
}

#[test]
fn byte_comparison_is_the_placeholder_heuristic() {
    let check = ByteComparison;
    assert!(check.check(&b"real-data".to_vec(), &b"schema-X".to_vec()));
    assert!(!check.check(&b"schema-X".to_vec(), &b"schema-X".to_vec()));
    assert!(!check.check(&Vec::new(), &b"schema-X".to_vec()));
}

#[test]
fn engine_publish_list_and_find() {
    let engine = market(b"real-data");
    assert_eq!(
        engine.list(COMPANY),
        vec![OrderForm {
            id: 0,
            name: b"wanted".to_vec(),
            reference_content: b"schema-X".to_vec(),
            unit_price: 100,
        }]
    );
    assert_eq!(engine.list(PERSON), Vec::<OrderForm>::new());
    let row = engine.find(PERSON, COMPANY, 0).expect("the uploaded row");
    assert_eq!(
        row,
        &DataMetadata {
            name: b"mine".to_vec(),
            target_company: COMPANY,
            order_id: 0,
            content_key: 0,
        }
    );
    assert_eq!(engine.content(row.content_key), Some(&b"real-data".to_vec()));
    assert_eq!(engine.content(1), None);
}

#[test]
fn engine_update_replaces_content_or_fails_not_found() {
    let mut engine = market(b"real-data");
    assert_eq!(
        engine.update(PERSON, b"again".to_vec(), b"better-data".to_vec(), COMPANY, 0),
        Ok(())
    );
    let row = engine.find(PERSON, COMPANY, 0).expect("the updated row");
    assert_eq!(row.name, b"again".to_vec());
    assert_eq!(row.target_company, COMPANY);
    assert_eq!(row.order_id, 0);
    assert_eq!(engine.content(row.content_key), Some(&b"better-data".to_vec()));
    assert_eq!(
        engine.update(PERSON, b"n".to_vec(), b"d".to_vec(), COMPANY, 1),
        Err(EscrowError::NotFound)
    );
    assert_eq!(engine.content(2), None);
}

#[test]
fn buy_pays_the_price_and_locks_it_on_the_person() {
    let engine = market(b"real-data");
    let settlement = engine.buy(COMPANY, PERSON, 0, NOW).expect("a purchase");
    assert_eq!(
        settlement.calls,
        vec![
            LedgerCall::Transfer { from: COMPANY, to: PERSON, amount: 100 },
            LedgerCall::SetLock {
                id: LockId::Person,
                account: PERSON,
                amount: 100,
                until: 8,
                reasons: 31,
            },
        ]
    );
    assert_eq!(settlement.event, Some(Event::Transfered(b"real-data".to_vec())));
}

#[test]
fn buy_locks_for_every_withdraw_reason_of_the_ledger() {
    let engine = market(b"real-data");
    let settlement = engine.buy(COMPANY, PERSON, 0, 0).expect("a purchase");
    match settlement.calls[1] {
        LedgerCall::SetLock { until, reasons, .. } => {
            assert_eq!(until, 1);
            assert_eq!(WithdrawReasons::from_bits(reasons), Some(WithdrawReasons::all()));
        }
        _ => panic!("the second call of a purchase sets the lock"),
    }
}

#[test]
fn buy_of_own_data_is_refused() {
    let engine = market(b"real-data");
    assert_eq!(engine.buy(COMPANY, COMPANY, 0, NOW), Err(EscrowError::Authorization));
    assert_eq!(engine.buy(STRANGER, STRANGER, 0, NOW), Err(EscrowError::Authorization));
}

#[test]
fn buy_by_a_company_without_orders_is_not_found() {
    let engine = market(b"real-data");
    assert_eq!(engine.buy(STRANGER, PERSON, 0, NOW), Err(EscrowError::NotFound));
}

#[test]
fn buy_without_a_row_buys_nothing() {
    let engine = market(b"real-data");
    assert_eq!(engine.buy(COMPANY, STRANGER, 0, NOW), Ok(empty_settlement()));
}

#[test]
fn buy_of_an_unknown_order_buys_nothing() {
    let mut engine = market(b"real-data");
    engine.upload(PERSON, b"early".to_vec(), b"data".to_vec(), COMPANY, 5);
    assert_eq!(engine.buy(COMPANY, PERSON, 5, NOW), Ok(empty_settlement()));
    assert_eq!(engine.buy(COMPANY, PERSON, 1, NOW), Ok(empty_settlement()));
}

#[test]
fn buy_takes_the_price_of_the_order_that_was_asked_for() {
    let mut engine = market(b"real-data");
    assert_eq!(engine.publish(COMPANY, b"more".to_vec(), b"schema-Y".to_vec(), 250), 1);
    engine.upload(PERSON, b"second".to_vec(), b"other-data".to_vec(), COMPANY, 1);
    let settlement = engine.buy(COMPANY, PERSON, 1, NOW).expect("a purchase");
    assert_eq!(settlement.calls[0], LedgerCall::Transfer { from: COMPANY, to: PERSON, amount: 250 });
    assert_eq!(settlement.event, Some(Event::Transfered(b"other-data".to_vec())));
}

#[test]
fn confirm_lifts_the_lock_of_the_person() {
    let engine = market(b"real-data");
    let settlement = engine.confirm(COMPANY, PERSON, 0).expect("a confirmation");
    assert_eq!(
        settlement.calls,
        vec![LedgerCall::RemoveLock { id: LockId::Person, account: PERSON }]
    );
    assert_eq!(settlement.event, Some(Event::Confirmed(PERSON, 0)));
}

#[test]
fn confirm_asks_for_no_earlier_purchase() {
    let engine = EscrowEngine::new();
    let settlement = engine.confirm(COMPANY, PERSON, 9).expect("a confirmation");
    assert_eq!(
        settlement.calls,
        vec![LedgerCall::RemoveLock { id: LockId::Person, account: PERSON }]
    );
    assert_eq!(settlement.event, Some(Event::Confirmed(PERSON, 9)));
}

#[test]
fn confirm_of_own_data_is_refused() {
    let engine = market(b"real-data");
    assert_eq!(engine.confirm(PERSON, PERSON, 0), Err(EscrowError::Authorization));
}

#[test]
fn tip_off_with_the_reference_as_upload_places_no_punitive_lock() {
    let engine = market(b"schema-X");
    let settlement = engine.tip_off(COMPANY, PERSON, 0, NOW).expect("a verdict");
    assert_eq!(settlement.calls, Vec::<LedgerCall>::new());
    assert_eq!(settlement.event, Some(Event::TippedOff(false)));
}

#[test]
fn tip_off_with_an_empty_upload_places_no_punitive_lock() {
    let engine = market(b"");
    let settlement = engine.tip_off(COMPANY, PERSON, 0, NOW).expect("a verdict");
    assert_eq!(settlement.calls, Vec::<LedgerCall>::new());
    assert_eq!(settlement.event, Some(Event::TippedOff(false)));
}

#[test]
fn tip_off_against_genuine_data_punishes_the_company() {
    let engine = market(b"real-data");
    let settlement = engine.tip_off(COMPANY, PERSON, 0, NOW).expect("a verdict");
    assert_eq!(settlement.calls, punishment(COMPANY, PERSON, NOW));
    assert_eq!(settlement.event, Some(Event::TippedOff(true)));
}

#[test]
fn tip_off_judges_the_updated_content() {
    let mut engine = market(b"real-data");
    assert_eq!(
        engine.update(PERSON, b"mine".to_vec(), b"schema-X".to_vec(), COMPANY, 0),
        Ok(())
    );
    let settlement = engine.tip_off(COMPANY, PERSON, 0, NOW).expect("a verdict");
    assert_eq!(settlement.calls, Vec::<LedgerCall>::new());
    assert_eq!(settlement.event, Some(Event::TippedOff(false)));
}

#[test]
fn tip_off_against_oneself_is_refused() {
    let engine = market(b"real-data");
    assert_eq!(engine.tip_off(PERSON, PERSON, 0, NOW), Err(EscrowError::Authorization));
}

#[test]
fn tip_off_without_a_row_is_not_found() {
    let engine = market(b"real-data");
    assert_eq!(engine.tip_off(COMPANY, STRANGER, 0, NOW), Err(EscrowError::NotFound));
    assert_eq!(engine.tip_off(STRANGER, PERSON, 0, NOW), Err(EscrowError::NotFound));
}

#[test]
fn tip_off_without_the_order_is_not_found() {
    let mut engine = market(b"real-data");
    engine.upload(PERSON, b"early".to_vec(), b"data".to_vec(), COMPANY, 5);
    assert_eq!(engine.tip_off(COMPANY, PERSON, 5, NOW), Err(EscrowError::NotFound));
}

#[test]
fn evidence_is_the_upload_and_the_reference() {
    let engine = market(b"real-data");
    let (uploaded, reference) = engine.evidence(COMPANY, PERSON, 0).expect("the evidence");
    assert_eq!(uploaded, &b"real-data".to_vec());
    assert_eq!(reference, &b"schema-X".to_vec());
    assert_eq!(engine.evidence(COMPANY, COMPANY, 0), Err(EscrowError::Authorization));
    assert_eq!(engine.evidence(COMPANY, PERSON, 1), Err(EscrowError::NotFound));
}

#[test]
fn judge_turns_a_genuine_verdict_against_the_company() {
    let settlement = judge(COMPANY, PERSON, true, NOW);
    assert_eq!(settlement.calls, punishment(COMPANY, PERSON, NOW));
    assert_eq!(settlement.event, Some(Event::TippedOff(true)));
}

#[test]
fn judge_leaves_the_ledger_alone_otherwise() {
    let settlement = judge(COMPANY, PERSON, false, NOW);
    assert_eq!(settlement.calls, Vec::<LedgerCall>::new());
    assert_eq!(settlement.event, Some(Event::TippedOff(false)));
}

#[test]
fn judge_locks_the_largest_balance_until_the_next_height() {
    let settlement = judge(COMPANY, PERSON, true, u64::MAX - 1);
    assert_eq!(
        settlement.calls[0],
        LedgerCall::SetLock {
            id: LockId::Company,
            account: COMPANY,
            amount: 340282366920938463463374607431768211455,
            until: u64::MAX,
            reasons: 0b0001_1111,
        }
    );
}

struct TrustNobody;

impl FraudCheck for TrustNobody {
    fn check(&self, _uploaded: &Vec<u8>, _reference: &Vec<u8>) -> bool {
        false
    }
}

struct LongerThanReference;

impl FraudCheck for LongerThanReference {
    fn check(&self, uploaded: &Vec<u8>, reference: &Vec<u8>) -> bool {
        uploaded.len() > reference.len()
    }
}

#[test]
fn tip_off_judges_by_the_check_it_is_handed() {
    let engine = market(b"real-data");
    let strict = engine
        .tip_off_with(&TrustNobody, COMPANY, PERSON, 0, NOW)
        .expect("a verdict");
    assert_eq!(strict.calls, Vec::<LedgerCall>::new());
    assert_eq!(strict.event, Some(Event::TippedOff(false)));
    let by_length = engine
        .tip_off_with(&LongerThanReference, COMPANY, PERSON, 0, NOW)
        .expect("a verdict");
    assert_eq!(by_length.calls, punishment(COMPANY, PERSON, NOW));
    assert_eq!(by_length.event, Some(Event::TippedOff(true)));
    let placeholder = engine
        .tip_off_with(&ByteComparison, COMPANY, PERSON, 0, NOW)
        .expect("a verdict");
    assert_eq!(Ok(placeholder), engine.tip_off(COMPANY, PERSON, 0, NOW));
}

#[test]
fn tip_off_with_a_check_fails_as_without_one() {
    let engine = market(b"real-data");
    assert_eq!(
        engine.tip_off_with(&TrustNobody, PERSON, PERSON, 0, NOW),
        Err(EscrowError::Authorization)
    );
    assert_eq!(
        engine.tip_off_with(&TrustNobody, COMPANY, PERSON, 3, NOW),
        Err(EscrowError::NotFound)
    );
}
