use carbon_ledger::oracle::{
    CarbonError, CarbonOracleContract, GovAction, OracleEvent, MONITORING_FRESHNESS_SECS, PRICE_CACHE_TTL_LEDGERS,
};

fn s(v: &str) -> String {
    v.to_string()
}

const ADMIN: &str = "GADMIN";
const ORACLE: &str = "GORACLE";
const DAY: u64 = 24 * 60 * 60;
const DELAY: u64 = 172_800;

fn setup() -> CarbonOracleContract {
    let mut c = CarbonOracleContract::new();
    c.initialize(s(ADMIN), s(ORACLE)).unwrap();
    c
}

fn submit(
    c: &mut CarbonOracleContract,
    now: u64,
    signer: &str,
    project: &str,
    period: &str,
    tonnes: i128,
    score: u32,
    cid: &str,
) -> Result<(), CarbonError> {
    c.submit_monitoring_data(now, s(signer), s(project), s(period), tonnes, score, s(cid))
}

#[test]
fn test_authorized_oracle_submits_monitoring() {
    let mut c = setup();
    submit(&mut c, 0, ORACLE, "proj-001", "2023-Q1", 5000, 85, "QmSatCID").unwrap();
    let data = c.get_monitoring_data("proj-001", "2023-Q1").unwrap();
    assert_eq!(data.tonnes_verified, 5000);
    assert_eq!(data.methodology_score, 85);
}

#[test]
fn test_unauthorized_oracle_rejected() {
    let mut c = setup();
    let result = submit(&mut c, 0, "GROGUE", "proj-001", "2023-Q1", 5000, 85, "QmSatCID");
    assert!(result.is_err());
}

#[test]
fn test_benchmark_price_update() {
    let mut c = setup();
    c.update_credit_price(0, s(ORACLE), s("VCS"), 2023, 15_0000000).unwrap();
    let price = c.get_benchmark_price(0, "VCS", 2023).unwrap();
    assert_eq!(price, 15_0000000);
}

#[test]
fn test_price_not_set_returns_error() {
    let c = setup();
    let result = c.get_benchmark_price(0, "VCS", 2023);
    assert!(result.is_err());
}

#[test]
fn test_flag_project() {
    let mut c = setup();
    c.flag_project(s(ORACLE), s("proj-001"), s("satellite contradiction")).unwrap();
}

#[test]
fn test_stale_monitoring_returns_false() {
    let mut c = setup();
    submit(&mut c, 1_000_000, ORACLE, "proj-001", "2022-Q1", 1000, 80, "QmCID").unwrap();
    assert!(!c.is_monitoring_current(1_000_000 + 366 * DAY, "proj-001"));
}

#[test]
fn test_fresh_monitoring_returns_true() {
    let mut c = setup();
    submit(&mut c, 0, ORACLE, "proj-001", "2023-Q1", 1000, 80, "QmCID").unwrap();
    assert!(c.is_monitoring_current(0, "proj-001"));
}

#[test]
fn test_lock_released_after_submit_monitoring() {
    let mut c = setup();
    submit(&mut c, 0, ORACLE, "proj-001", "2023-Q1", 5000, 85, "QmCID1").unwrap();
    submit(&mut c, 0, ORACLE, "proj-001", "2023-Q2", 4000, 80, "QmCID2").unwrap();
    let data = c.get_monitoring_data("proj-001", "2023-Q2").unwrap();
    assert_eq!(data.tonnes_verified, 4000);
}

#[test]
fn test_lock_released_after_update_price() {
    let mut c = setup();
    c.update_credit_price(0, s(ORACLE), s("VCS"), 2023, 15_0000000).unwrap();
    c.update_credit_price(0, s(ORACLE), s("VCS"), 2024, 20_0000000).unwrap();
    let price = c.get_benchmark_price(0, "VCS", 2024).unwrap();
    assert_eq!(price, 20_0000000);
}

#[test]
fn test_lock_released_after_flag_project() {
    let mut c = setup();
    c.flag_project(s(ORACLE), s("proj-001"), s("contradiction")).unwrap();
    c.flag_project(s(ORACLE), s("proj-002"), s("double-count")).unwrap();
}

#[test]
fn test_lock_released_after_failed_submit() {
    let mut c = setup();
    let _ = submit(&mut c, 0, ORACLE, "proj-001", "2023-Q1", 0, 80, "QmCID");
    submit(&mut c, 0, ORACLE, "proj-001", "2023-Q1", 1000, 80, "QmCID").unwrap();
    let data = c.get_monitoring_data("proj-001", "2023-Q1").unwrap();
    assert_eq!(data.tonnes_verified, 1000);
}

#[test]
fn test_lock_released_after_failed_price_update() {
    let mut c = setup();
    let _ = c.update_credit_price(0, s("GROGUE"), s("VCS"), 2023, 10_0000000);
    c.update_credit_price(0, s(ORACLE), s("VCS"), 2023, 10_0000000).unwrap();
    let price = c.get_benchmark_price(0, "VCS", 2023).unwrap();
    assert_eq!(price, 10_0000000);
}

#[test]
fn test_submit_empty_period_fails() {
    let mut c = setup();
    let result = submit(&mut c, 0, ORACLE, "proj-001", "", 1000, 80, "QmCID");
    assert!(result.is_err());
}

#[test]
fn test_submit_empty_satellite_cid_fails() {
    let mut c = setup();
    let result = submit(&mut c, 0, ORACLE, "proj-001", "2023-Q1", 1000, 80, "");
    assert!(result.is_err());
}

#[test]
fn test_propose_price_update_and_query() {
    let mut c = setup();
    c.propose_price_update(0, s(ORACLE), s("op-001"), s("VCS"), 2023, 20_0000000).unwrap();
    let op = c.get_pending_op("op-001").unwrap();
    assert_eq!(op.op_id, s("op-001"));
}

#[test]
fn test_execute_price_update_before_delay_fails() {
    let mut c = setup();
    c.propose_price_update(1_000_000, s(ORACLE), s("op-002"), s("VCS"), 2023, 20_0000000).unwrap();
    assert!(c.execute_price_update(1_000_000, 0, s(ORACLE), s("op-002")).is_err());
}

#[test]
fn test_execute_price_update_after_delay_succeeds() {
    let mut c = setup();
    c.propose_price_update(1_000_000, s(ORACLE), s("op-003"), s("VCS"), 2024, 25_0000000).unwrap();
    c.execute_price_update(1_000_000 + 172_800 + 1, 0, s(ORACLE), s("op-003")).unwrap();
    assert!(c.get_pending_op("op-003").is_err());
}

#[test]
fn test_contest_price_update_blocks_execution() {
    let mut c = setup();
    c.propose_price_update(1_000_000, s(ORACLE), s("op-004"), s("VCS"), 2023, 50_0000000).unwrap();
    c.contest_operation(1_000_000, s("GUSER"), s("op-004"), s("price spike")).unwrap();
    assert!(c.execute_price_update(1_000_000 + 172_800 + 1, 0, s(ORACLE), s("op-004")).is_err());
}

#[test]
fn test_rollback_price_update() {
    let mut c = setup();
    c.propose_price_update(0, s(ORACLE), s("op-005"), s("VCS"), 2023, 15_0000000).unwrap();
    c.rollback_operation(s(ORACLE), s("op-005")).unwrap();
    assert!(c.get_pending_op("op-005").is_err());
}

// ── Further scenarios ─────────────────────────────────────────────────────────

#[test]
fn oracle_error_kinds_and_codes() {
    let mut c = setup();
    assert_eq!(c.initialize(s(ADMIN), s(ORACLE)), Err(CarbonError::AlreadyInitialized));
    assert_eq!(CarbonError::AlreadyInitialized.code(), 19);
    assert_eq!(CarbonError::ReentrancyGuard.code(), 20);
    assert_eq!(CarbonError::ProjectNotFound.code(), 1);
    assert_eq!(
        submit(&mut c, 0, "GROGUE", "p", "q", 1, 1, "cid"),
        Err(CarbonError::UnauthorizedOracle)
    );
    assert_eq!(submit(&mut c, 0, ORACLE, "p", "q", 0, 1, "cid"), Err(CarbonError::ZeroAmountNotAllowed));
    assert_eq!(submit(&mut c, 0, ORACLE, "", "q", 5, 1, "cid"), Err(CarbonError::ProjectNotFound));
    assert_eq!(submit(&mut c, 0, ORACLE, "p", "q", 5, 101, "cid"), Err(CarbonError::InvalidVintageYear));
    assert_eq!(c.get_monitoring_data("p", "q").unwrap_err(), CarbonError::ProjectNotFound);
    assert_eq!(c.update_credit_price(0, s(ORACLE), s("VCS"), 2023, 0), Err(CarbonError::ZeroAmountNotAllowed));
    assert_eq!(c.get_benchmark_price(0, "VCS", 2023), Err(CarbonError::PriceNotSet));
    assert_eq!(c.flag_project(s("GROGUE"), s("p"), s("r")), Err(CarbonError::UnauthorizedOracle));
    assert_eq!(c.set_timelock_delay(s(ORACLE), 0), Err(CarbonError::ZeroAmountNotAllowed));
    assert_eq!(c.set_timelock_delay(s("GROGUE"), 10), Err(CarbonError::UnauthorizedOracle));
    assert_eq!(c.rollback_operation(s(ORACLE), s("none")), Err(CarbonError::ProjectNotFound));
    assert_eq!(c.execute_price_update(0, 0, s(ORACLE), s("none")), Err(CarbonError::ProjectNotFound));
    assert_eq!(c.contest_operation(0, s("GUSER"), s("none"), s("r")), Err(CarbonError::ProjectNotFound));
    assert!(c.get_contest("none").is_err());
    assert!(c.events().is_empty());
}

#[test]
fn uninitialized_oracle_refuses_everyone() {
    let mut c = CarbonOracleContract::new();
    assert_eq!(submit(&mut c, 0, ORACLE, "p", "q", 5, 50, "cid"), Err(CarbonError::UnauthorizedOracle));
    assert_eq!(c.update_credit_price(0, s(ORACLE), s("VCS"), 2023, 5), Err(CarbonError::UnauthorizedOracle));
}

#[test]
fn monitoring_report_is_stored_whole() {
    let mut c = setup();
    submit(&mut c, 77, ORACLE, "proj-009", "2024-Q3", 321, 69, "QmX").unwrap();
    let d = c.get_monitoring_data("proj-009", "2024-Q3").unwrap();
    assert_eq!(d.project_id, "proj-009");
    assert_eq!(d.period, "2024-Q3");
    assert_eq!(d.satellite_cid, "QmX");
    assert_eq!(d.submitted_by, ORACLE);
    assert_eq!(d.submitted_at, 77);
    assert_eq!(d.methodology_score, 69);
    let ev = c.events();
    assert_eq!(ev.len(), 2);
    assert!(matches!(&ev[0], OracleEvent::LowScore { methodology_score: 69, .. }));
    assert!(matches!(&ev[1], OracleEvent::MonitoringSubmitted { tonnes_verified: 321, .. }));
}

#[test]
fn resubmission_overwrites_the_period() {
    let mut c = setup();
    submit(&mut c, 10, ORACLE, "proj-001", "2023-Q1", 100, 90, "A").unwrap();
    submit(&mut c, 20, ORACLE, "proj-001", "2023-Q1", 200, 90, "B").unwrap();
    let d = c.get_monitoring_data("proj-001", "2023-Q1").unwrap();
    assert_eq!(d.tonnes_verified, 200);
    assert_eq!(d.satellite_cid, "B");
    assert_eq!(c.events().len(), 2);
}

#[test]
fn freshness_window_edges() {
    let mut c = setup();
    assert!(!c.is_monitoring_current(0, "proj-001"));
    submit(&mut c, 1_000, ORACLE, "proj-001", "2023-Q1", 1, 80, "cid").unwrap();
    assert!(c.is_monitoring_current(1_000 + MONITORING_FRESHNESS_SECS, "proj-001"));
    assert!(!c.is_monitoring_current(1_000 + MONITORING_FRESHNESS_SECS + 1, "proj-001"));
    // A clock behind the report still counts as current.
    assert!(c.is_monitoring_current(0, "proj-001"));
    assert!(!c.is_monitoring_current(1_000, "proj-002"));
}

#[test]
fn price_expires_after_its_ledger_window() {
    let mut c = setup();
    c.update_credit_price(500, s(ORACLE), s("GS"), 2022, 7).unwrap();
    assert_eq!(c.get_benchmark_price(500 + PRICE_CACHE_TTL_LEDGERS, "GS", 2022), Ok(7));
    assert_eq!(c.get_benchmark_price(501 + PRICE_CACHE_TTL_LEDGERS, "GS", 2022), Err(CarbonError::PriceNotSet));
    assert_eq!(c.get_benchmark_price(500, "GS", 2021), Err(CarbonError::PriceNotSet));
    c.update_credit_price(600, s(ORACLE), s("GS"), 2022, 9).unwrap();
    assert_eq!(c.get_benchmark_price(600, "GS", 2022), Ok(9));
}

#[test]
fn propose_stages_price_and_queues_op() {
    let mut c = setup();
    c.update_credit_price(40, s(ORACLE), s("VCS"), 2025, 20).unwrap();
    c.propose_price_update(1_000, s(ORACLE), s("op-1"), s("VCS"), 2025, 33).unwrap();
    // The proposal is staged: the readable price is still the old one.
    assert_eq!(c.get_benchmark_price(40, "VCS", 2025), Ok(20));
    let op = c.get_pending_op("op-1").unwrap();
    assert_eq!(op.action, GovAction::UpdateCreditPrice);
    assert_eq!(op.target, "VCS");
    assert_eq!(op.initiated_by, ORACLE);
    assert_eq!(op.eta, 1_000 + DELAY);
    assert_eq!(op.payload, "price_update");
    assert_eq!(
        c.propose_price_update(1_000, s("GROGUE"), s("op-2"), s("VCS"), 2025, 33),
        Err(CarbonError::UnauthorizedOracle)
    );
    assert_eq!(
        c.propose_price_update(1_000, s(ORACLE), s("op-2"), s("VCS"), 2025, 0),
        Err(CarbonError::ZeroAmountNotAllowed)
    );
}

#[test]
fn execution_window_edges() {
    let mut c = setup();
    c.propose_price_update(100, s(ORACLE), s("op"), s("VCS"), 2023, 5).unwrap();
    assert_eq!(
        c.execute_price_update(100 + DELAY - 1, 0, s(ORACLE), s("op")),
        Err(CarbonError::RetirementIrreversible)
    );
    assert_eq!(c.execute_price_update(100 + DELAY, 0, s("GROGUE"), s("op")), Err(CarbonError::UnauthorizedOracle));
    c.execute_price_update(100 + DELAY, 0, s(ORACLE), s("op")).unwrap();
    assert_eq!(c.get_pending_op("op").unwrap_err(), CarbonError::ProjectNotFound);
}

#[test]
fn contest_window_closes_at_eta() {
    let mut c = setup();
    c.propose_price_update(100, s(ORACLE), s("op"), s("VCS"), 2023, 5).unwrap();
    assert_eq!(
        c.contest_operation(100 + DELAY, s("GUSER"), s("op"), s("late")),
        Err(CarbonError::AlreadyRetired)
    );
    c.contest_operation(100 + DELAY - 1, s("GUSER"), s("op"), s("early")).unwrap();
    let rec = c.get_contest("op").unwrap();
    assert_eq!(rec.contested_by, "GUSER");
    assert_eq!(rec.reason, "early");
    assert_eq!(rec.contested_at, 100 + DELAY - 1);
    assert_eq!(
        c.execute_price_update(100 + 10 * DELAY, 0, s(ORACLE), s("op")),
        Err(CarbonError::RetirementIrreversible)
    );
    c.rollback_operation(s(ORACLE), s("op")).unwrap();
    assert!(c.get_contest("op").is_err());
    assert!(c.get_pending_op("op").is_err());
}

#[test]
fn new_delay_applies_to_later_proposals() {
    let mut c = setup();
    c.set_timelock_delay(s(ORACLE), 60).unwrap();
    c.propose_price_update(1_000, s(ORACLE), s("op"), s("VCS"), 2023, 5).unwrap();
    assert_eq!(c.get_pending_op("op").unwrap().eta, 1_060);
    c.execute_price_update(1_060, 0, s(ORACLE), s("op")).unwrap();
}

#[test]
fn flag_and_timelock_publish_events() {
    let mut c = setup();
    c.flag_project(s(ORACLE), s("p1"), s("why")).unwrap();
    c.propose_price_update(0, s(ORACLE), s("op"), s("VCS"), 2023, 5).unwrap();
    c.contest_operation(0, s("GUSER"), s("op"), s("no")).unwrap();
    c.rollback_operation(s(ORACLE), s("op")).unwrap();
    let ev = c.events();
    assert_eq!(ev.len(), 4);
    assert!(matches!(&ev[0], OracleEvent::ProjectFlagged { .. }));
    assert!(matches!(&ev[1], OracleEvent::PriceUpdateQueued { vintage_year: 2023, price_usdc: 5, .. }));
    assert!(matches!(&ev[2], OracleEvent::Contested { .. }));
    assert!(matches!(&ev[3], OracleEvent::RolledBack { .. }));
}

#[test]
fn oracle_timelock_delay_is_readable() {
    let mut c = setup();
    assert_eq!(c.timelock_delay(), DELAY);
    c.set_timelock_delay(s(ORACLE), 5).unwrap();
    assert_eq!(c.timelock_delay(), 5);
}

#[test]
fn executed_proposal_publishes_its_price() {
    let mut c = setup();
    c.propose_price_update(100, s(ORACLE), s("op"), s("GS"), 2030, 44).unwrap();
    assert_eq!(c.get_benchmark_price(7, "GS", 2030), Err(CarbonError::PriceNotSet));
    c.execute_price_update(100 + DELAY, 500, s(ORACLE), s("op")).unwrap();
    assert_eq!(c.get_benchmark_price(500 + PRICE_CACHE_TTL_LEDGERS, "GS", 2030), Ok(44));
    assert_eq!(c.get_benchmark_price(501 + PRICE_CACHE_TTL_LEDGERS, "GS", 2030), Err(CarbonError::PriceNotSet));
}

#[test]
fn rolled_back_proposal_never_publishes() {
    let mut c = setup();
    c.propose_price_update(100, s(ORACLE), s("op"), s("GS"), 2030, 44).unwrap();
    c.rollback_operation(s(ORACLE), s("op")).unwrap();
    assert!(c.execute_price_update(100 + DELAY, 0, s(ORACLE), s("op")).is_err());
    assert_eq!(c.get_benchmark_price(0, "GS", 2030), Err(CarbonError::PriceNotSet));
}

#[test]
fn price_overflow_query() {
    let c = setup();
    assert!(c.price_eta_overflows(u64::MAX - 10, &s(ORACLE), 5));
    assert!(!c.price_eta_overflows(u64::MAX - 10, &s(ORACLE), 0));
    assert!(!c.price_eta_overflows(u64::MAX - 10, &s("GROGUE"), 5));
    assert!(!c.price_eta_overflows(0, &s(ORACLE), 5));
}
