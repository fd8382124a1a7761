use carbon_ledger::credit::{CarbonCreditContract, CarbonError, CreditEvent, CreditStatus};

fn s(v: &str) -> String {
    v.to_string()
}

const ADMIN: &str = "GADMIN";
const REGISTRY: &str = "GREGISTRY";

fn setup() -> CarbonCreditContract {
    let mut c = CarbonCreditContract::new();
    c.initialize(s(ADMIN), s(REGISTRY)).unwrap();
    c
}

fn mint(c: &mut CarbonCreditContract, project: &str, amount: i128, batch: &str, start: u64, end: u64) -> Result<(), CarbonError> {
    c.mint_credits(0, s(ADMIN), s(project), amount, 2023, s(batch), start, end, s("cid"))
}

fn retire(c: &mut CarbonCreditContract, holder: &str, batch: &str, amount: i128, id: &str, tx: &str) -> Result<carbon_ledger::credit::RetirementCertificate, CarbonError> {
    c.retire_credits(0, s(holder), s(batch), amount, s("reason"), s("Corp"), s(id), s(tx))
}

#[test]
fn test_mint_credits_success() {
    let mut c = setup();
    c.mint_credits(0, s(ADMIN), s("proj-001"), 500, 2023, s("batch-A"), 1, 500, s("QmCID")).unwrap();
    let b = c.get_credit_batch("batch-A").unwrap();
    assert_eq!(b.amount, 500);
    assert_eq!(b.status, CreditStatus::Active);
}

#[test]
fn test_serial_conflict_detection() {
    let mut c = setup();
    mint(&mut c, "p1", 100, "b1", 1, 100).unwrap();
    // Overlapping range 50-150 should fail
    let result = mint(&mut c, "p1", 100, "b2", 50, 150);
    assert!(result.is_err());
    assert_eq!(result, Err(CarbonError::DoubleCountingDetected));
}

#[test]
fn test_verify_serial_range_no_overlap() {
    let mut c = setup();
    mint(&mut c, "p1", 100, "b1", 1, 100).unwrap();
    assert!(c.verify_serial_range(101, 200));
    assert!(!c.verify_serial_range(50, 150));
}

#[test]
fn test_retire_credits_permanent() {
    let mut c = setup();
    mint(&mut c, "p1", 100, "b1", 1, 100).unwrap();
    let cert = c
        .retire_credits(0, s("GHOLDER"), s("b1"), 100, s("offset 2023 emissions"), s("Acme Corp"), s("ret-001"), s("txhash123"))
        .unwrap();
    assert_eq!(cert.amount, 100);
    assert_eq!(cert.beneficiary, s("Acme Corp"));
    let batch = c.get_credit_batch("b1").unwrap();
    assert_eq!(batch.status, CreditStatus::FullyRetired);
}

#[test]
fn test_retired_credits_cannot_be_transferred() {
    let mut c = setup();
    mint(&mut c, "p1", 100, "b1", 1, 100).unwrap();
    retire(&mut c, "GHOLDER", "b1", 100, "ret-001", "tx").unwrap();
    let result = c.transfer_credits(s("GHOLDER"), s("GTO"), s("b1"), 10);
    assert!(result.is_err());
}

#[test]
fn test_retired_credits_cannot_be_retired_again() {
    let mut c = setup();
    mint(&mut c, "p1", 100, "b1", 1, 100).unwrap();
    retire(&mut c, "GHOLDER", "b1", 100, "ret-001", "tx").unwrap();
    let result = retire(&mut c, "GHOLDER", "b1", 100, "ret-002", "tx2");
    assert!(result.is_err());
}

#[test]
fn test_partial_retirement_updates_status() {
    let mut c = setup();
    mint(&mut c, "p1", 100, "b1", 1, 100).unwrap();
    retire(&mut c, "GHOLDER", "b1", 40, "ret-001", "tx").unwrap();
    let batch = c.get_credit_batch("b1").unwrap();
    assert_eq!(batch.status, CreditStatus::PartiallyRetired);
}

#[test]
fn test_get_retirement_certificate() {
    let mut c = setup();
    mint(&mut c, "p1", 100, "b1", 1, 100).unwrap();
    retire(&mut c, "GHOLDER", "b1", 100, "ret-001", "tx").unwrap();
    let cert = c.get_retirement_certificate("ret-001").unwrap();
    assert_eq!(cert.amount, 100);
    assert_eq!(cert.retirement_id, s("ret-001"));
}

#[test]
fn test_zero_amount_rejected() {
    let mut c = setup();
    let result = mint(&mut c, "p1", 0, "b1", 1, 100);
    assert!(result.is_err());
}

#[test]
fn test_initialize_twice_fails() {
    let mut c = CarbonCreditContract::new();
    c.initialize(s(ADMIN), s(REGISTRY)).unwrap();
    let result = c.initialize(s(ADMIN), s(REGISTRY));
    assert!(result.is_err());
}

#[test]
fn test_lock_released_after_mint() {
    let mut c = setup();
    mint(&mut c, "p1", 100, "b1", 1, 100).unwrap();
    mint(&mut c, "p1", 100, "b2", 101, 200).unwrap();
    let b = c.get_credit_batch("b2").unwrap();
    assert_eq!(b.amount, 100);
}

#[test]
fn test_lock_released_after_retire() {
    let mut c = setup();
    mint(&mut c, "p1", 200, "b1", 1, 200).unwrap();
    retire(&mut c, "GHOLDER", "b1", 100, "r1", "tx").unwrap();
    retire(&mut c, "GHOLDER", "b1", 100, "r2", "tx2").unwrap();
    let b = c.get_credit_batch("b1").unwrap();
    assert_eq!(b.status, CreditStatus::FullyRetired);
}

#[test]
fn test_lock_released_after_failed_retire() {
    let mut c = setup();
    mint(&mut c, "p1", 50, "b1", 1, 50).unwrap();
    let _ = retire(&mut c, "GHOLDER", "b1", 999, "r1", "tx");
    retire(&mut c, "GHOLDER", "b1", 50, "r2", "tx2").unwrap();
}

#[test]
fn test_lock_released_after_transfer() {
    let mut c = setup();
    mint(&mut c, "p1", 100, "b1", 1, 100).unwrap();
    c.transfer_credits(s("GFROM"), s("GTO"), s("b1"), 10).unwrap();
    c.transfer_credits(s("GFROM"), s("GTO"), s("b1"), 10).unwrap();
}

#[test]
fn test_lock_released_after_failed_mint() {
    let mut c = setup();
    mint(&mut c, "p1", 100, "b1", 1, 100).unwrap();
    let _ = mint(&mut c, "p1", 100, "b1", 201, 300);
    c.mint_credits(0, s(ADMIN), s("p1"), 50, 2023, s("b3"), 201, 250, s("cid")).unwrap();
}

#[test]
fn test_mint_mismatched_serial_range_fails() {
    let mut c = setup();
    let result = mint(&mut c, "p1", 100, "b-mismatch", 1, 50);
    assert!(result.is_err());
}

#[test]
fn test_mint_empty_metadata_cid_fails() {
    let mut c = setup();
    let result = c.mint_credits(0, s(ADMIN), s("p1"), 100, 2023, s("b-empty-cid"), 1, 100, s(""));
    assert!(result.is_err());
}

#[test]
fn test_propose_pause_and_query() {
    let mut c = setup();
    c.propose_pause(0, s(ADMIN), s("op-001"), s("maintenance")).unwrap();
    let op = c.get_pending_op("op-001").unwrap();
    assert_eq!(op.op_id, s("op-001"));
}

#[test]
fn test_execute_pause_before_delay_fails() {
    let mut c = setup();
    c.propose_pause(1_000_000, s(ADMIN), s("op-002"), s("test")).unwrap();
    assert!(c.execute_pause(1_000_000, s(ADMIN), s("op-002")).is_err());
}

#[test]
fn test_execute_pause_after_delay_succeeds() {
    let mut c = setup();
    c.propose_pause(1_000_000, s(ADMIN), s("op-003"), s("upgrade")).unwrap();
    c.execute_pause(1_000_000 + 172_800 + 1, s(ADMIN), s("op-003")).unwrap();
    assert!(c.get_pending_op("op-003").is_err());
}

#[test]
fn test_contest_pause_blocks_execution() {
    let mut c = setup();
    c.propose_pause(1_000_000, s(ADMIN), s("op-004"), s("contested")).unwrap();
    c.contest_operation(1_000_000, s("GUSER"), s("op-004"), s("unjustified")).unwrap();
    assert!(c.execute_pause(1_000_000 + 172_800 + 1, s(ADMIN), s("op-004")).is_err());
}

#[test]
fn test_rollback_pause_op() {
    let mut c = setup();
    c.propose_pause(0, s(ADMIN), s("op-005"), s("rollback")).unwrap();
    c.rollback_operation(s(ADMIN), s("op-005")).unwrap();
    assert!(c.get_pending_op("op-005").is_err());
}

#[test]
fn test_unauthorized_propose_pause_fails() {
    let mut c = setup();
    assert!(c.propose_pause(0, s("GROGUE"), s("op-bad"), s("hack")).is_err());
}

// ── Further scenarios ─────────────────────────────────────────────────────────

#[test]
fn mint_checks_run_in_documented_order() {
    let mut c = setup();
    // Non-admin is refused before the amount is looked at.
    assert_eq!(c.mint_credits(0, s("GROGUE"), s("p1"), 0, 2023, s("b1"), 1, 1, s("cid")), Err(CarbonError::UnauthorizedVerifier));
    assert_eq!(mint(&mut c, "p1", -5, "b1", 1, 1), Err(CarbonError::ZeroAmountNotAllowed));
    assert_eq!(mint(&mut c, "p1", 1, "b1", 5, 4), Err(CarbonError::InvalidSerialRange));
    assert_eq!(c.mint_credits(0, s(ADMIN), s("p1"), 1, 1999, s("b1"), 1, 1, s("cid")), Err(CarbonError::InvalidVintageYear));
    assert_eq!(c.mint_credits(0, s(ADMIN), s("p1"), 1, 2101, s("b1"), 1, 1, s("cid")), Err(CarbonError::InvalidVintageYear));
    mint(&mut c, "p1", 1, "b1", 1, 1).unwrap();
    // A reused batch id is reported as a serial conflict.
    assert_eq!(mint(&mut c, "p1", 1, "b1", 7, 7), Err(CarbonError::SerialNumberConflict));
    assert_eq!(mint(&mut c, "p1", 1, "", 7, 7), Err(CarbonError::SerialNumberConflict));
    assert_eq!(mint(&mut c, "", 1, "b2", 7, 7), Err(CarbonError::ProjectNotFound));
}

#[test]
fn mint_before_initialize_is_unauthorized() {
    let mut c = CarbonCreditContract::new();
    assert_eq!(mint(&mut c, "p1", 1, "b1", 1, 1), Err(CarbonError::UnauthorizedVerifier));
}

#[test]
fn full_width_range_is_refused() {
    let mut c = setup();
    // 0..=u64::MAX holds 2^64 serials, more than any amount can match.
    assert_eq!(mint(&mut c, "p1", 1, "b-of", 0, u64::MAX), Err(CarbonError::InvalidSerialRange));
    // A range at the very top of the serial space is fine.
    mint(&mut c, "p1", 2, "b-safe", u64::MAX - 1, u64::MAX).unwrap();
}

#[test]
fn retire_checks_and_errors() {
    let mut c = setup();
    assert_eq!(retire(&mut c, "GH", "nope", 1, "r", "tx").unwrap_err(), CarbonError::ProjectNotFound);
    mint(&mut c, "p1", 10, "b1", 1, 10).unwrap();
    assert_eq!(retire(&mut c, "GH", "b1", 0, "r", "tx").unwrap_err(), CarbonError::ZeroAmountNotAllowed);
    assert_eq!(retire(&mut c, "GH", "b1", 11, "r", "tx").unwrap_err(), CarbonError::InsufficientCredits);
    assert_eq!(retire(&mut c, "GH", "b1", 1, "", "tx").unwrap_err(), CarbonError::ProjectNotFound);
    assert_eq!(retire(&mut c, "GH", "b1", 1, "r", "").unwrap_err(), CarbonError::ProjectNotFound);
    retire(&mut c, "GH", "b1", 10, "r", "tx").unwrap();
    assert_eq!(retire(&mut c, "GH", "b1", 1, "r2", "tx").unwrap_err(), CarbonError::AlreadyRetired);
    assert_eq!(c.transfer_credits(s("GH"), s("GT"), s("b1"), 1), Err(CarbonError::AlreadyRetired));
}

#[test]
fn retirement_serials_are_consecutive_slices() {
    let mut c = setup();
    mint(&mut c, "p1", 10, "b1", 101, 110).unwrap();
    let c1 = retire(&mut c, "GH", "b1", 3, "r1", "tx1").unwrap();
    let c2 = retire(&mut c, "GH", "b1", 4, "r2", "tx2").unwrap();
    assert_eq!(c1.serial_numbers, vec![101, 102, 103]);
    assert_eq!(c2.serial_numbers, vec![104, 105, 106, 107]);
    let stored = c.get_retirement_certificate("r2").unwrap();
    assert_eq!(stored.serial_numbers, c2.serial_numbers);
    assert_eq!(stored.project_id, s("p1"));
    assert_eq!(stored.credit_batch_id, s("b1"));
    assert_eq!(stored.retired_by, s("GH"));
}

#[test]
fn project_credits_in_mint_order() {
    let mut c = setup();
    mint(&mut c, "p1", 5, "b1", 1, 5).unwrap();
    mint(&mut c, "p2", 5, "b2", 6, 10).unwrap();
    mint(&mut c, "p1", 5, "b3", 11, 15).unwrap();
    let ids: Vec<String> = c.get_project_credits("p1").iter().map(|b| b.batch_id.clone()).collect();
    assert_eq!(ids, vec![s("b1"), s("b3")]);
    assert!(c.get_project_credits("p9").is_empty());
}

#[test]
fn events_record_each_success_only() {
    let mut c = setup();
    mint(&mut c, "p1", 5, "b1", 1, 5).unwrap();
    let _ = mint(&mut c, "p1", 5, "b2", 1, 5);
    c.transfer_credits(s("GA"), s("GB"), s("b1"), 2).unwrap();
    assert_eq!(c.events().len(), 2);
    match &c.events()[0] {
        CreditEvent::Minted { batch_id, serial_start, serial_end, .. } => {
            assert_eq!(batch_id, "b1");
            assert_eq!((*serial_start, *serial_end), (1, 5));
        }
        other => panic!("unexpected event {other:?}"),
    }
    match &c.events()[1] {
        CreditEvent::Transferred { from, to, amount, .. } => {
            assert_eq!((from.as_str(), to.as_str(), *amount), ("GA", "GB", 2));
        }
        other => panic!("unexpected event {other:?}"),
    }
}

#[test]
fn timelock_delay_and_contest_window() {
    let mut c = setup();
    assert_eq!(c.set_timelock_delay(s(ADMIN), 0), Err(CarbonError::ZeroAmountNotAllowed));
    c.set_timelock_delay(s(ADMIN), 100).unwrap();
    c.propose_pause(1_000, s(ADMIN), s("op"), s("why")).unwrap();
    assert_eq!(c.get_pending_op("op").unwrap().eta, 1_100);
    assert_eq!(c.execute_pause(1_099, s(ADMIN), s("op")), Err(CarbonError::RetirementIrreversible));
    // The contest window closes at eta.
    assert_eq!(c.contest_operation(1_100, s("GU"), s("op"), s("late")), Err(CarbonError::AlreadyRetired));
    assert_eq!(c.contest_operation(0, s("GU"), s("missing"), s("x")), Err(CarbonError::ProjectNotFound));
    c.execute_pause(1_100, s(ADMIN), s("op")).unwrap();
    assert_eq!(c.execute_pause(1_100, s(ADMIN), s("op")), Err(CarbonError::ProjectNotFound));
    assert_eq!(c.rollback_operation(s(ADMIN), s("op")), Err(CarbonError::ProjectNotFound));
}

#[test]
fn rollback_clears_contest() {
    let mut c = setup();
    c.propose_pause(10, s(ADMIN), s("op"), s("why")).unwrap();
    c.contest_operation(11, s("GU"), s("op"), s("no")).unwrap();
    assert_eq!(c.get_contest("op").unwrap().contested_at, 11);
    c.rollback_operation(s(ADMIN), s("op")).unwrap();
    assert!(c.get_contest("op").is_err());
    assert_eq!(c.get_pending_op("op").unwrap_err(), CarbonError::ProjectNotFound);
}

#[test]
fn error_codes_match_ledger_numbers() {
    assert_eq!(CarbonError::ProjectNotFound.code(), 1);
    assert_eq!(CarbonError::DoubleCountingDetected.code(), 14);
    assert_eq!(CarbonError::ReentrancyGuard.code(), 20);
}

#[test]
fn regression_mint_requires_serial_range_matches_amount() {
    let mut c = setup();
    assert_eq!(mint(&mut c, "p0", 100, "bx", 1, 5), Err(CarbonError::InvalidSerialRange));
    mint(&mut c, "p0", 10, "b0", 1, 10).unwrap();
    let cert = retire(&mut c, ADMIN, "b0", 10, "ret1", "tx1").unwrap();
    assert_eq!(*cert.serial_numbers.last().unwrap(), 10);
    let stored = c.get_retirement_certificate("ret1").unwrap();
    assert_eq!(*stored.serial_numbers.last().unwrap(), 10);
    assert_eq!(stored.serial_numbers.len(), 10);
}

#[test]
fn known_gap_no_cross_contract_consistency() {
    // The credit contract does not consult the registry: a batch for a
    // project nobody registered is minted all the same.
    let mut c = setup();
    mint(&mut c, "never-registered", 10, "b0", 1, 10).unwrap();
    let ids: Vec<String> = c.get_project_credits("never-registered").iter().map(|b| b.batch_id.clone()).collect();
    assert_eq!(ids, vec![s("b0")]);
}

#[test]
fn certificates_never_share_serials() {
    let mut c = setup();
    mint(&mut c, "p1", 10, "b1", 1, 10).unwrap();
    mint(&mut c, "p2", 5, "b2", 20, 24).unwrap();
    let certs = vec![
        retire(&mut c, ADMIN, "b1", 3, "r1", "t1").unwrap(),
        retire(&mut c, ADMIN, "b2", 2, "r2", "t2").unwrap(),
        retire(&mut c, ADMIN, "b1", 4, "r3", "t3").unwrap(),
        retire(&mut c, ADMIN, "b2", 3, "r4", "t4").unwrap(),
    ];
    let mut seen: Vec<u64> = Vec::new();
    for cert in &certs {
        for n in &cert.serial_numbers {
            assert!(!seen.contains(n));
            seen.push(*n);
        }
    }
    assert_eq!(certs[2].serial_numbers, vec![4, 5, 6, 7]);
    assert_eq!(certs[3].serial_numbers, vec![22, 23, 24]);
    assert_eq!(c.get_credit_batch("b2").unwrap().status, CreditStatus::FullyRetired);
}

#[test]
fn reused_retirement_id_is_refused() {
    let mut c = setup();
    mint(&mut c, "p1", 10, "b1", 1, 10).unwrap();
    retire(&mut c, ADMIN, "b1", 2, "dup", "t1").unwrap();
    assert_eq!(retire(&mut c, ADMIN, "b1", 3, "dup", "t2").unwrap_err(), CarbonError::AlreadyRetired);
    let stored = c.get_retirement_certificate("dup").unwrap();
    assert_eq!(stored.serial_numbers, vec![1, 2]);
    assert_eq!(stored.tx_hash, "t1");
    assert_eq!(c.get_credit_batch("b1").unwrap().status, CreditStatus::PartiallyRetired);
}

#[test]
fn executed_pause_stops_credit_mutations() {
    let mut c = setup();
    mint(&mut c, "p1", 10, "b1", 1, 10).unwrap();
    c.propose_pause(0, s(ADMIN), s("op"), s("halt")).unwrap();
    // Queued but not executed: mutations still go through.
    retire(&mut c, ADMIN, "b1", 1, "r0", "t0").unwrap();
    c.execute_pause(172_800, s(ADMIN), s("op")).unwrap();
    assert_eq!(mint(&mut c, "p1", 5, "b2", 20, 24), Err(CarbonError::ProjectSuspended));
    assert_eq!(retire(&mut c, ADMIN, "b1", 1, "r1", "t1").unwrap_err(), CarbonError::ProjectSuspended);
    assert_eq!(c.transfer_credits(s("GA"), s("GB"), s("b1"), 1), Err(CarbonError::ProjectSuspended));
    assert!(c.get_credit_batch("b2").is_err());
    assert!(c.get_retirement_certificate("r1").is_err());
}

#[test]
fn timelock_delay_is_readable() {
    let mut c = setup();
    assert_eq!(c.timelock_delay(), 172_800);
    c.set_timelock_delay(s(ADMIN), 30).unwrap();
    assert_eq!(c.timelock_delay(), 30);
}

#[test]
fn certificates_partition_the_retired_serials() {
    let mut c = setup();
    mint(&mut c, "p1", 10, "b1", 1, 10).unwrap();
    mint(&mut c, "p2", 4, "b2", 11, 14).unwrap();
    let a = retire(&mut c, ADMIN, "b1", 3, "r1", "t1").unwrap();
    let b = retire(&mut c, ADMIN, "b2", 2, "r2", "t2").unwrap();
    let d = retire(&mut c, ADMIN, "b1", 4, "r3", "t3").unwrap();
    // Batch b1 has 7 retired credits: its certificates sum to 7 and name
    // serials 1..=7, each exactly once.
    assert_eq!(a.amount + d.amount, 7);
    let mut b1: Vec<u64> = a.serial_numbers.iter().chain(d.serial_numbers.iter()).copied().collect();
    b1.sort();
    assert_eq!(b1, (1..=7).collect::<Vec<u64>>());
    assert_eq!(b.serial_numbers, vec![11, 12]);
    assert_eq!(retire(&mut c, ADMIN, "b1", 4, "r4", "t4").unwrap_err(), CarbonError::InsufficientCredits);
}

#[test]
fn pause_overflow_query() {
    let mut c = setup();
    assert!(c.pause_eta_overflows(u64::MAX - 10, &s(ADMIN)));
    assert!(!c.pause_eta_overflows(u64::MAX - 10, &s("GROGUE")));
    assert!(!c.pause_eta_overflows(0, &s(ADMIN)));
    assert_eq!(c.propose_pause(u64::MAX - 10, s("GROGUE"), s("op"), s("r")), Err(CarbonError::UnauthorizedVerifier));
}
