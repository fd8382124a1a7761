use carbon_ledger::oracle::CarbonOracleContract;
use carbon_ledger::registry::{CarbonError, CarbonRegistryContract, ProjectStatus, RegistryEvent};

fn s(v: &str) -> String {
    v.to_string()
}

const ADMIN: &str = "GADMIN";
const ORACLE: &str = "GORACLE";
const VERIFIER: &str = "GVERIFIER";

fn setup() -> CarbonRegistryContract {
    let mut c = CarbonRegistryContract::new();
    c.initialize(s(ADMIN), s(ORACLE), vec![s(VERIFIER)]).unwrap();
    c
}

fn register_as(c: &mut CarbonRegistryContract, id: &str, name: &str, cid: &str, vintage: u32) -> Result<(), CarbonError> {
    c.register_project(0, s(ADMIN), s(id), s(name), s(cid), s("GPROJVERIFIER"), s("VCS"), s("Brazil"), s("forestry"), vintage)
}

fn register(c: &mut CarbonRegistryContract) {
    register_as(c, "proj-001", "Amazon Reforestation", "QmCID123", 2023).unwrap();
}

#[test]
fn test_register_project_valid() {
    let mut c = setup();
    register(&mut c);
    let p = c.get_project("proj-001").unwrap();
    assert_eq!(p.status, ProjectStatus::Pending);
    assert_eq!(p.vintage_year, 2023);
}

#[test]
fn test_register_duplicate_fails() {
    let mut c = setup();
    register(&mut c);
    let result = register_as(&mut c, "proj-001", "Dup", "cid", 2023);
    assert!(result.is_err());
}

#[test]
fn test_verifier_approves_project() {
    let mut c = setup();
    register(&mut c);
    c.verify_project(s(VERIFIER), s("proj-001")).unwrap();
    let p = c.get_project("proj-001").unwrap();
    assert_eq!(p.status, ProjectStatus::Verified);
}

#[test]
fn test_unauthorized_verifier_rejected() {
    let mut c = setup();
    register(&mut c);
    let result = c.verify_project(s("GROGUE"), s("proj-001"));
    assert!(result.is_err());
}

#[test]
fn test_verifier_rejects_project() {
    let mut c = setup();
    register(&mut c);
    c.reject_project(s(VERIFIER), s("proj-001"), s("fraud")).unwrap();
    let p = c.get_project("proj-001").unwrap();
    assert_eq!(p.status, ProjectStatus::Rejected);
}

#[test]
fn test_oracle_updates_status() {
    let mut c = setup();
    register(&mut c);
    c.update_project_status(s(ORACLE), s("proj-001"), ProjectStatus::Completed).unwrap();
    let p = c.get_project("proj-001").unwrap();
    assert_eq!(p.status, ProjectStatus::Completed);
}

#[test]
fn test_admin_suspends_project() {
    let mut c = setup();
    register(&mut c);
    c.suspend_project(s(ADMIN), s("proj-001"), s("investigation")).unwrap();
    let p = c.get_project("proj-001").unwrap();
    assert_eq!(p.status, ProjectStatus::Suspended);
}

#[test]
fn test_get_project_returns_correct_data() {
    let mut c = setup();
    register(&mut c);
    let p = c.get_project("proj-001").unwrap();
    assert_eq!(p.project_id, s("proj-001"));
    assert_eq!(p.country, s("Brazil"));
    assert_eq!(p.total_credits_issued, 0);
}

#[test]
fn lib_test_initialize_twice_fails() {
    let mut c = CarbonRegistryContract::new();
    c.initialize(s(ADMIN), s(ORACLE), vec![s(VERIFIER)]).unwrap();
    let result = c.initialize(s(ADMIN), s(ORACLE), vec![s(VERIFIER)]);
    assert!(result.is_err());

    let mut o = CarbonOracleContract::new();
    o.initialize(s(ADMIN), s(ORACLE)).unwrap();
    let result = o.initialize(s(ADMIN), s(ORACLE));
    assert!(result.is_err());
}

#[test]
fn test_lock_released_after_register_project() {
    let mut c = setup();
    register_as(&mut c, "p1", "Proj1", "cid1", 2023).unwrap();
    register_as(&mut c, "p2", "Proj2", "cid2", 2024).unwrap();
    let p = c.get_project("p2").unwrap();
    assert_eq!(p.status, ProjectStatus::Pending);
}

#[test]
fn test_lock_released_after_failed_register() {
    let mut c = setup();
    register(&mut c);
    let _ = register_as(&mut c, "proj-001", "Dup", "cid", 2023);
    register_as(&mut c, "proj-002", "Another", "cid2", 2024).unwrap();
}

#[test]
fn test_lock_released_after_verify_project() {
    let mut c = setup();
    register(&mut c);
    c.verify_project(s(VERIFIER), s("proj-001")).unwrap();
    c.suspend_project(s(ADMIN), s("proj-001"), s("audit")).unwrap();
    let p = c.get_project("proj-001").unwrap();
    assert_eq!(p.status, ProjectStatus::Suspended);
}

#[test]
fn test_lock_released_after_suspend_project() {
    let mut c = setup();
    register(&mut c);
    c.suspend_project(s(ADMIN), s("proj-001"), s("fraud")).unwrap();
    c.update_project_status(s(ORACLE), s("proj-001"), ProjectStatus::Completed).unwrap();
    let p = c.get_project("proj-001").unwrap();
    assert_eq!(p.status, ProjectStatus::Completed);
}

#[test]
fn test_lock_released_after_reject_project() {
    let mut c = setup();
    register(&mut c);
    c.reject_project(s(VERIFIER), s("proj-001"), s("fraud")).unwrap();
    register_as(&mut c, "proj-new", "New", "cid", 2025).unwrap();
}

#[test]
fn test_register_project_empty_name_fails() {
    let mut c = setup();
    let result = register_as(&mut c, "proj-x", "", "cid", 2023);
    assert!(result.is_err());
}

#[test]
fn test_register_project_invalid_vintage_fails() {
    let mut c = setup();
    let result = register_as(&mut c, "proj-y", "Proj Y", "cid", 1999);
    assert!(result.is_err());
}

#[test]
fn test_propose_and_query_pending_op() {
    let mut c = setup();
    register(&mut c);
    c.propose_suspend_project(0, s(ADMIN), s("op-001"), s("proj-001"), s("investigation")).unwrap();
    let op = c.get_pending_op("op-001").unwrap();
    assert_eq!(op.op_id, s("op-001"));
    assert_eq!(op.target, s("proj-001"));
}

#[test]
fn test_execute_before_delay_fails() {
    let mut c = setup();
    register(&mut c);
    c.propose_suspend_project(1_000_000, s(ADMIN), s("op-002"), s("proj-001"), s("test")).unwrap();
    let result = c.execute_suspend_project(1_000_000, s(ADMIN), s("op-002"));
    assert!(result.is_err());
}

#[test]
fn test_execute_after_delay_succeeds() {
    let mut c = setup();
    register(&mut c);
    c.propose_suspend_project(1_000_000, s(ADMIN), s("op-003"), s("proj-001"), s("audit")).unwrap();
    c.execute_suspend_project(1_000_000 + 172_800 + 1, s(ADMIN), s("op-003")).unwrap();
    let p = c.get_project("proj-001").unwrap();
    assert_eq!(p.status, ProjectStatus::Suspended);
}

#[test]
fn test_contest_blocks_execution() {
    let mut c = setup();
    register(&mut c);
    c.propose_suspend_project(1_000_000, s(ADMIN), s("op-004"), s("proj-001"), s("contested")).unwrap();
    c.contest_operation(1_000_000, s("GUSER"), s("op-004"), s("unjustified")).unwrap();
    let result = c.execute_suspend_project(1_000_000 + 172_800 + 1, s(ADMIN), s("op-004"));
    assert!(result.is_err());
}

#[test]
fn test_rollback_removes_op() {
    let mut c = setup();
    register(&mut c);
    c.propose_suspend_project(0, s(ADMIN), s("op-005"), s("proj-001"), s("rollback")).unwrap();
    c.rollback_operation(s(ADMIN), s("op-005")).unwrap();
    assert!(c.get_pending_op("op-005").is_err());
}

#[test]
fn test_set_timelock_delay() {
    let mut c = setup();
    c.set_timelock_delay(s(ADMIN), 3600).unwrap();
    assert!(c.set_timelock_delay(s(ADMIN), 0).is_err());
}

#[test]
fn test_unauthorized_propose_fails() {
    let mut c = setup();
    register(&mut c);
    assert!(c.propose_suspend_project(0, s("GROGUE"), s("op-bad"), s("proj-001"), s("hack")).is_err());
}

#[test]
fn test_increment_issued_overflow() {
    let mut c = setup();
    register(&mut c);
    c.increment_issued(s(ORACLE), s("proj-001"), i128::MAX).unwrap();
    let p = c.get_project("proj-001").unwrap();
    assert_eq!(p.total_credits_issued, i128::MAX);
    let res = c.increment_issued(s(ORACLE), s("proj-001"), 1);
    assert_eq!(res, Err(CarbonError::ArithmeticOverflow));
}

#[test]
fn test_increment_issued_typical() {
    let mut c = setup();
    register(&mut c);
    c.increment_issued(s(ORACLE), s("proj-001"), 1_000).unwrap();
    c.increment_issued(s(ORACLE), s("proj-001"), 2_500).unwrap();
    let p = c.get_project("proj-001").unwrap();
    assert_eq!(p.total_credits_issued, 3_500);
}

// ── Further scenarios ─────────────────────────────────────────────────────────

#[test]
fn registry_error_kinds() {
    let mut c = setup();
    assert_eq!(
        c.register_project(0, s("GROGUE"), s("p"), s("n"), s("c"), s("v"), s("VCS"), s("BR"), s("f"), 2023),
        Err(CarbonError::UnauthorizedVerifier)
    );
    assert_eq!(c.verify_project(s(VERIFIER), s("missing")), Err(CarbonError::ProjectNotFound));
    assert_eq!(c.update_project_status(s("GROGUE"), s("missing"), ProjectStatus::Completed), Err(CarbonError::UnauthorizedOracle));
    register(&mut c);
    assert_eq!(register_as(&mut c, "proj-001", "Dup", "cid", 2023), Err(CarbonError::ProjectAlreadyExists));
    assert_eq!(register_as(&mut c, "proj-002", "Late", "cid", 2101), Err(CarbonError::InvalidVintageYear));
    assert_eq!(register_as(&mut c, "proj-002", "", "cid", 2050), Err(CarbonError::ProjectNotFound));
    // Vintage bounds are inclusive.
    register_as(&mut c, "proj-2000", "Old", "cid", 2000).unwrap();
    register_as(&mut c, "proj-2100", "New", "cid", 2100).unwrap();
}

#[test]
fn increment_must_keep_project_valid() {
    let mut c = setup();
    register(&mut c);
    assert_eq!(c.increment_issued(s(ORACLE), s("proj-001"), -1), Err(CarbonError::ZeroAmountNotAllowed));
    assert_eq!(c.get_project("proj-001").unwrap().total_credits_issued, 0);
    assert_eq!(c.increment_issued(s(ORACLE), s("missing"), 1), Err(CarbonError::ProjectNotFound));
}

#[test]
fn suspension_lifecycle_and_events() {
    let mut c = setup();
    register(&mut c);
    assert_eq!(
        c.propose_suspend_project(0, s(ADMIN), s("op"), s("missing"), s("why")),
        Err(CarbonError::ProjectNotFound)
    );
    c.propose_suspend_project(u64::MAX - 172_800, s(ADMIN), s("op"), s("proj-001"), s("why")).unwrap();
    assert_eq!(c.get_pending_op("op").unwrap().eta, u64::MAX);
    // An earliest execution time past u64::MAX is reported, not wrapped.
    assert_eq!(
        c.propose_suspend_project(u64::MAX - 172_799, s(ADMIN), s("op2"), s("proj-001"), s("why")),
        Err(CarbonError::ArithmeticOverflow)
    );
    c.execute_suspend_project(u64::MAX, s(ADMIN), s("op")).unwrap();
    assert!(c.get_pending_op("op").is_err());
    match c.events().last().unwrap() {
        RegistryEvent::ProjectSuspended { project_id, admin, reason } => {
            assert_eq!((project_id.as_str(), admin.as_str(), reason.as_str()), ("proj-001", ADMIN, "why"));
        }
        other => panic!("unexpected event {other:?}"),
    }
}

#[test]
fn registry_state_machine_walk() {
    let mut c = setup();
    register_as(&mut c, "proj-sm", "Name", "cid", 2050).unwrap();
    assert_eq!(c.get_project("proj-sm").unwrap().status, ProjectStatus::Pending);
    c.verify_project(s(VERIFIER), s("proj-sm")).unwrap();
    assert_eq!(c.get_project("proj-sm").unwrap().status, ProjectStatus::Verified);
    c.suspend_project(s(ADMIN), s("proj-sm"), s("audit")).unwrap();
    assert_eq!(c.get_project("proj-sm").unwrap().status, ProjectStatus::Suspended);
}

#[test]
fn rejection_is_final() {
    let mut c = setup();
    register(&mut c);
    c.reject_project(s(VERIFIER), s("proj-001"), s("fraud")).unwrap();
    assert_eq!(c.verify_project(s(VERIFIER), s("proj-001")), Err(CarbonError::RetirementIrreversible));
    assert_eq!(
        c.update_project_status(s(ORACLE), s("proj-001"), ProjectStatus::Verified),
        Err(CarbonError::RetirementIrreversible)
    );
    assert_eq!(c.suspend_project(s(ADMIN), s("proj-001"), s("x")), Err(CarbonError::RetirementIrreversible));
    c.propose_suspend_project(0, s(ADMIN), s("op"), s("proj-001"), s("x")).unwrap();
    assert_eq!(
        c.execute_suspend_project(172_800, s(ADMIN), s("op")),
        Err(CarbonError::RetirementIrreversible)
    );
    assert_eq!(c.get_project("proj-001").unwrap().status, ProjectStatus::Rejected);
}

#[test]
fn increment_refuses_non_positive_amounts() {
    let mut c = setup();
    register(&mut c);
    c.increment_issued(s(ORACLE), s("proj-001"), 10).unwrap();
    assert_eq!(c.increment_issued(s(ORACLE), s("proj-001"), 0), Err(CarbonError::ZeroAmountNotAllowed));
    assert_eq!(c.increment_issued(s(ORACLE), s("proj-001"), -5), Err(CarbonError::ZeroAmountNotAllowed));
    assert_eq!(c.get_project("proj-001").unwrap().total_credits_issued, 10);
    assert_eq!(c.increment_issued(s(ORACLE), s("nope"), 0), Err(CarbonError::ProjectNotFound));
    assert_eq!(c.increment_issued(s("GROGUE"), s("proj-001"), 0), Err(CarbonError::UnauthorizedOracle));
}
