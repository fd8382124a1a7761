//! The project registry: carbon-offset projects are registered by the
//! admin, verified or rejected by accredited verifiers, suspended by the
//! admin (directly or through the time-lock), and updated by the oracle.
use vstd::hash_map::StringHashMap;
use vstd::prelude::*;

use crate::timelock::{Timelock, TimelockRefusal, TimelockState};

verus! {

/// Errors returned by the project registry.
#[derive(Clone, Copy, Debug, PartialEq, Eq, Structural, PartialOrd, Ord)]
pub enum CarbonError {
    ProjectNotFound,
    ProjectNotVerified,
    ProjectSuspended,
    InsufficientCredits,
    AlreadyRetired,
    SerialNumberConflict,
    UnauthorizedVerifier,
    UnauthorizedOracle,
    InvalidVintageYear,
    ListingNotFound,
    InsufficientLiquidity,
    PriceNotSet,
    MonitoringDataStale,
    DoubleCountingDetected,
    RetirementIrreversible,
    ZeroAmountNotAllowed,
    ProjectAlreadyExists,
    InvalidSerialRange,
    AlreadyInitialized,
    ReentrancyGuard,
    ArithmeticOverflow,
}

impl CarbonError {
    /// The numeric code of the error on the ledger.
    pub open spec fn spec_code(self) -> u32 {
        match self {
            CarbonError::ProjectNotFound => 1,
            CarbonError::ProjectNotVerified => 2,
            CarbonError::ProjectSuspended => 3,
            CarbonError::InsufficientCredits => 4,
            CarbonError::AlreadyRetired => 5,
            CarbonError::SerialNumberConflict => 6,
            CarbonError::UnauthorizedVerifier => 7,
            CarbonError::UnauthorizedOracle => 8,
            CarbonError::InvalidVintageYear => 9,
            CarbonError::ListingNotFound => 10,
            CarbonError::InsufficientLiquidity => 11,
            CarbonError::PriceNotSet => 12,
            CarbonError::MonitoringDataStale => 13,
            CarbonError::DoubleCountingDetected => 14,
            CarbonError::RetirementIrreversible => 15,
            CarbonError::ZeroAmountNotAllowed => 16,
            CarbonError::ProjectAlreadyExists => 17,
            CarbonError::InvalidSerialRange => 18,
            CarbonError::AlreadyInitialized => 19,
            CarbonError::ReentrancyGuard => 20,
            CarbonError::ArithmeticOverflow => 21,
        }
    }

    /// The numeric code of the error on the ledger.
    pub fn code(&self) -> (c: u32)
        ensures
            c == self.spec_code(),
    {
        match self {
            CarbonError::ProjectNotFound => 1,
            CarbonError::ProjectNotVerified => 2,
            CarbonError::ProjectSuspended => 3,
            CarbonError::InsufficientCredits => 4,
            CarbonError::AlreadyRetired => 5,
            CarbonError::SerialNumberConflict => 6,
            CarbonError::UnauthorizedVerifier => 7,
            CarbonError::UnauthorizedOracle => 8,
            CarbonError::InvalidVintageYear => 9,
            CarbonError::ListingNotFound => 10,
            CarbonError::InsufficientLiquidity => 11,
            CarbonError::PriceNotSet => 12,
            CarbonError::MonitoringDataStale => 13,
            CarbonError::DoubleCountingDetected => 14,
            CarbonError::RetirementIrreversible => 15,
            CarbonError::ZeroAmountNotAllowed => 16,
            CarbonError::ProjectAlreadyExists => 17,
            CarbonError::InvalidSerialRange => 18,
            CarbonError::AlreadyInitialized => 19,
            CarbonError::ReentrancyGuard => 20,
            CarbonError::ArithmeticOverflow => 21,
        }
    }
}

/// Lifecycle status of a project.
#[derive(Clone, Copy, Debug, PartialEq, Eq, Structural)]
pub enum ProjectStatus {
    Pending,
    Verified,
    Rejected,
    Suspended,
    Completed,
}

/// A registered carbon-offset project.
#[derive(Clone, Debug)]
pub struct CarbonProject {
    pub project_id: String,
    pub name: String,
    pub methodology: String,
    pub country: String,
    pub project_type: String,
    pub verifier_address: String,
    pub metadata_cid: String,
    pub total_credits_issued: i128,
    pub total_credits_retired: i128,
    pub status: ProjectStatus,
    pub vintage_year: u32,
    pub created_at: u64,
}

impl CarbonProject {
    /// A field-by-field copy of the project.
    pub fn snapshot(&self) -> (r: CarbonProject)
        ensures
            r == *self,
    {
        CarbonProject {
            project_id: self.project_id.clone(),
            name: self.name.clone(),
            methodology: self.methodology.clone(),
            country: self.country.clone(),
            project_type: self.project_type.clone(),
            verifier_address: self.verifier_address.clone(),
            metadata_cid: self.metadata_cid.clone(),
            total_credits_issued: self.total_credits_issued,
            total_credits_retired: self.total_credits_retired,
            status: self.status,
            vintage_year: self.vintage_year,
            created_at: self.created_at,
        }
    }
}

/// Why a project record is malformed, if it is: the first of its invariants
/// that fails.
pub open spec fn project_error(p: CarbonProject) -> Option<CarbonError> {
    if p.project_id@.len() == 0 || p.name@.len() == 0 || p.methodology@.len() == 0 || p.country@.len() == 0
        || p.project_type@.len() == 0 || p.metadata_cid@.len() == 0 {
        Some(CarbonError::ProjectNotFound)
    } else if p.vintage_year < 2000 || p.vintage_year > 2100 {
        Some(CarbonError::InvalidVintageYear)
    } else if p.total_credits_issued < 0 || p.total_credits_retired < 0 {
        Some(CarbonError::ZeroAmountNotAllowed)
    } else if p.total_credits_retired > p.total_credits_issued {
        Some(CarbonError::InsufficientCredits)
    } else {
        None
    }
}

/// Checks a project record against its invariants.
fn validate_project(p: &CarbonProject) -> (r: Option<CarbonError>)
    ensures
        r == project_error(*p),
{
    if p.project_id.as_str().is_empty() || p.name.as_str().is_empty() || p.methodology.as_str().is_empty()
        || p.country.as_str().is_empty() || p.project_type.as_str().is_empty() || p.metadata_cid.as_str().is_empty() {
        Some(CarbonError::ProjectNotFound)
    } else if p.vintage_year < 2000 || p.vintage_year > 2100 {
        Some(CarbonError::InvalidVintageYear)
    } else if p.total_credits_issued < 0 || p.total_credits_retired < 0 {
        Some(CarbonError::ZeroAmountNotAllowed)
    } else if p.total_credits_retired > p.total_credits_issued {
        Some(CarbonError::InsufficientCredits)
    } else {
        None
    }
}

/// Governance operations of the registry subject to the time-lock.
#[derive(Clone, Copy, Debug, PartialEq, Eq, Structural)]
pub enum GovAction {
    SuspendProject,
    UnsuspendProject,
    ChangeTimelockDelay,
}

/// A pending governance operation of the registry.
pub type PendingOp = crate::timelock::PendingOp<GovAction>;

pub use crate::timelock::ContestRecord;

/// Events the registry publishes, in the order they happened.
#[derive(Clone, Debug)]
pub enum RegistryEvent {
    ProjectRegistered { project_id: String, methodology: String, country: String, vintage_year: u32 },
    ProjectVerified { project_id: String, verifier: String },
    ProjectRejected { project_id: String, verifier: String, reason: String },
    StatusUpdated { project_id: String, oracle: String },
    SuspendQueued { op_id: String, admin: String, project_id: String, eta: u64 },
    ProjectSuspended { project_id: String, admin: String, reason: String },
    Contested { op_id: String, contestant: String, reason: String },
    RolledBack { op_id: String, admin: String },
}

/// Maps a time-lock refusal to the error the registry reports.
pub open spec fn refusal_error(r: TimelockRefusal) -> CarbonError {
    match r {
        TimelockRefusal::OpNotFound => CarbonError::ProjectNotFound,
        TimelockRefusal::Contested => CarbonError::RetirementIrreversible,
        TimelockRefusal::TooEarly => CarbonError::RetirementIrreversible,
        TimelockRefusal::WindowClosed => CarbonError::AlreadyRetired,
    }
}

fn to_error(r: TimelockRefusal) -> (e: CarbonError)
    ensures
        e == refusal_error(r),
{
    match r {
        TimelockRefusal::OpNotFound => CarbonError::ProjectNotFound,
        TimelockRefusal::Contested => CarbonError::RetirementIrreversible,
        TimelockRefusal::TooEarly => CarbonError::RetirementIrreversible,
        TimelockRefusal::WindowClosed => CarbonError::AlreadyRetired,
    }
}

/// Abstract state of the registry.
pub struct RegistryState {
    pub admin: Option<String>,
    pub oracle: Option<String>,
    pub verifiers: Seq<String>,
    pub projects: Map<Seq<char>, CarbonProject>,
    pub timelock: TimelockState<GovAction>,
    pub locked: bool,
    pub events: Seq<RegistryEvent>,
}

impl RegistryState {
    /// The registry as deployed, before `initialize`.
    pub open spec fn initial() -> RegistryState {
        RegistryState {
            admin: None,
            oracle: None,
            verifiers: Seq::empty(),
            projects: Map::empty(),
            timelock: TimelockState::initial(),
            locked: false,
            events: Seq::empty(),
        }
    }

    /// The registry's invariant: every stored project is well formed and
    /// stored under its own id.
    pub open spec fn wf(self) -> bool {
        forall|k: Seq<char>| #[trigger] self.projects.contains_key(k) ==> self.projects[k].project_id@ == k
            && project_error(self.projects[k]) is None
    }

    pub open spec fn is_admin(self, caller: String) -> bool {
        self.admin matches Some(a) && a@ == caller@
    }

    pub open spec fn is_oracle(self, caller: String) -> bool {
        self.oracle matches Some(o) && o@ == caller@
    }

    pub open spec fn is_verifier(self, caller: String) -> bool {
        exists|i: int| 0 <= i < self.verifiers.len() && #[trigger] self.verifiers[i]@ == caller@
    }

    /// Why a call by `caller` to an admin-only function is refused before any other check.
    pub open spec fn admin_gate(self, caller: String) -> Option<CarbonError> {
        if self.locked {
            Some(CarbonError::ReentrancyGuard)
        } else if !self.is_admin(caller) {
            Some(CarbonError::UnauthorizedVerifier)
        } else {
            None
        }
    }

    /// Why a call by `caller` to a verifier-only function is refused before any other check.
    pub open spec fn verifier_gate(self, caller: String) -> Option<CarbonError> {
        if self.locked {
            Some(CarbonError::ReentrancyGuard)
        } else if !self.is_verifier(caller) {
            Some(CarbonError::UnauthorizedVerifier)
        } else {
            None
        }
    }

    /// Why a call by `caller` to an oracle-only function is refused before any other check.
    pub open spec fn oracle_gate(self, caller: String) -> Option<CarbonError> {
        if self.locked {
            Some(CarbonError::ReentrancyGuard)
        } else if !self.is_oracle(caller) {
            Some(CarbonError::UnauthorizedOracle)
        } else {
            None
        }
    }

    /// The registry with project `k` moved to `status`.
    pub open spec fn with_status(self, k: Seq<char>, status: ProjectStatus) -> RegistryState {
        RegistryState { projects: self.projects.insert(k, CarbonProject { status, ..self.projects[k] }), ..self }
    }

    pub open spec fn initialize(self, admin: String, oracle_address: String, verifiers: Seq<String>) -> Result<
        RegistryState,
        CarbonError,
    > {
        if self.admin is Some {
            Err(CarbonError::AlreadyInitialized)
        } else {
            Ok(RegistryState { admin: Some(admin), oracle: Some(oracle_address), verifiers, ..self })
        }
    }

    /// The record `register_project` stores.
    pub open spec fn new_project(
        now: u64,
        project_id: String,
        name: String,
        metadata_cid: String,
        verifier_address: String,
        methodology: String,
        country: String,
        project_type: String,
        vintage_year: u32,
    ) -> CarbonProject {
        CarbonProject {
            project_id,
            name,
            methodology,
            country,
            project_type,
            verifier_address,
            metadata_cid,
            total_credits_issued: 0,
            total_credits_retired: 0,
            status: ProjectStatus::Pending,
            vintage_year,
            created_at: now,
        }
    }

    pub open spec fn register_project(
        self,
        now: u64,
        admin: String,
        project_id: String,
        name: String,
        metadata_cid: String,
        verifier_address: String,
        methodology: String,
        country: String,
        project_type: String,
        vintage_year: u32,
    ) -> Result<RegistryState, CarbonError> {
        let p = RegistryState::new_project(
            now,
            project_id,
            name,
            metadata_cid,
            verifier_address,
            methodology,
            country,
            project_type,
            vintage_year,
        );
        if let Some(e) = self.admin_gate(admin) {
            Err(e)
        } else if self.projects.contains_key(project_id@) {
            Err(CarbonError::ProjectAlreadyExists)
        } else if vintage_year < 2000 || vintage_year > 2100 {
            Err(CarbonError::InvalidVintageYear)
        } else if let Some(e) = project_error(p) {
            Err(e)
        } else {
            Ok(
                RegistryState {
                    projects: self.projects.insert(project_id@, p),
                    events: self.events.push(
                        RegistryEvent::ProjectRegistered { project_id, methodology, country, vintage_year },
                    ),
                    ..self
                },
            )
        }
    }

    pub open spec fn verify_project(self, verifier_address: String, project_id: String) -> Result<
        RegistryState,
        CarbonError,
    > {
        if let Some(e) = self.verifier_gate(verifier_address) {
            Err(e)
        } else if !self.projects.contains_key(project_id@) {
            Err(CarbonError::ProjectNotFound)
        } else if self.projects[project_id@].status == ProjectStatus::Rejected {
            Err(CarbonError::RetirementIrreversible)
        } else {
            let s = self.with_status(project_id@, ProjectStatus::Verified);
            Ok(
                RegistryState {
                    events: self.events.push(RegistryEvent::ProjectVerified { project_id, verifier: verifier_address }),
                    ..s
                },
            )
        }
    }

    pub open spec fn reject_project(self, verifier_address: String, project_id: String, reason: String) -> Result<
        RegistryState,
        CarbonError,
    > {
        if let Some(e) = self.verifier_gate(verifier_address) {
            Err(e)
        } else if !self.projects.contains_key(project_id@) {
            Err(CarbonError::ProjectNotFound)
        } else {
            let s = self.with_status(project_id@, ProjectStatus::Rejected);
            Ok(
                RegistryState {
                    events: self.events.push(
                        RegistryEvent::ProjectRejected { project_id, verifier: verifier_address, reason },
                    ),
                    ..s
                },
            )
        }
    }

    pub open spec fn update_project_status(self, oracle_address: String, project_id: String, status: ProjectStatus) -> Result<
        RegistryState,
        CarbonError,
    > {
        if let Some(e) = self.oracle_gate(oracle_address) {
            Err(e)
        } else if !self.projects.contains_key(project_id@) {
            Err(CarbonError::ProjectNotFound)
        } else if self.projects[project_id@].status == ProjectStatus::Rejected {
            Err(CarbonError::RetirementIrreversible)
        } else {
            let s = self.with_status(project_id@, status);
            Ok(
                RegistryState {
                    events: self.events.push(RegistryEvent::StatusUpdated { project_id, oracle: oracle_address }),
                    ..s
                },
            )
        }
    }

    pub open spec fn suspend_project(self, admin: String, project_id: String, reason: String) -> Result<
        RegistryState,
        CarbonError,
    > {
        if let Some(e) = self.admin_gate(admin) {
            Err(e)
        } else if !self.projects.contains_key(project_id@) {
            Err(CarbonError::ProjectNotFound)
        } else if self.projects[project_id@].status == ProjectStatus::Rejected {
            Err(CarbonError::RetirementIrreversible)
        } else {
            let s = self.with_status(project_id@, ProjectStatus::Suspended);
            Ok(
                RegistryState {
                    events: self.events.push(RegistryEvent::ProjectSuspended { project_id, admin, reason }),
                    ..s
                },
            )
        }
    }

    pub open spec fn increment_issued(self, oracle_address: String, project_id: String, amount: i128) -> Result<
        RegistryState,
        CarbonError,
    > {
        if let Some(e) = self.oracle_gate(oracle_address) {
            Err(e)
        } else if !self.projects.contains_key(project_id@) {
            Err(CarbonError::ProjectNotFound)
        } else if amount <= 0 {
            Err(CarbonError::ZeroAmountNotAllowed)
        } else {
            let p = self.projects[project_id@];
            let total = p.total_credits_issued + amount;
            if total > i128::MAX {
                Err(CarbonError::ArithmeticOverflow)
            } else {
                let q = CarbonProject { total_credits_issued: total as i128, ..p };
                if let Some(e) = project_error(q) {
                    Err(e)
                } else {
                    Ok(RegistryState { projects: self.projects.insert(project_id@, q), ..self })
                }
            }
        }
    }

    pub open spec fn get_project(self, project_id: Seq<char>) -> Result<CarbonProject, CarbonError> {
        if self.projects.contains_key(project_id) {
            Ok(self.projects[project_id])
        } else {
            Err(CarbonError::ProjectNotFound)
        }
    }

    pub open spec fn get_pending_op(self, op_id: Seq<char>) -> Result<PendingOp, CarbonError> {
        if self.timelock.ops.contains_key(op_id) {
            Ok(self.timelock.ops[op_id])
        } else {
            Err(CarbonError::ProjectNotFound)
        }
    }

    pub open spec fn get_contest(self, op_id: Seq<char>) -> Result<ContestRecord, CarbonError> {
        if self.timelock.contests.contains_key(op_id) {
            Ok(self.timelock.contests[op_id])
        } else {
            Err(CarbonError::ProjectNotFound)
        }
    }

    /// The operation `propose_suspend_project` queues when `eta` fits.
    pub open spec fn suspend_op(self, now: u64, admin: String, op_id: String, project_id: String, reason: String) -> PendingOp {
        PendingOp {
            op_id,
            action: GovAction::SuspendProject,
            target: project_id,
            initiated_by: admin,
            eta: (now + self.timelock.delay) as u64,
            payload: reason,
        }
    }

    pub open spec fn propose_suspend_project(
        self,
        now: u64,
        admin: String,
        op_id: String,
        project_id: String,
        reason: String,
    ) -> Result<RegistryState, CarbonError> {
        if let Some(e) = self.admin_gate(admin) {
            Err(e)
        } else if !self.projects.contains_key(project_id@) {
            Err(CarbonError::ProjectNotFound)
        } else if now + self.timelock.delay > u64::MAX {
            Err(CarbonError::ArithmeticOverflow)
        } else {
            let op = self.suspend_op(now, admin, op_id, project_id, reason);
            Ok(
                RegistryState {
                    timelock: self.timelock.with_op(op),
                    events: self.events.push(
                        RegistryEvent::SuspendQueued { op_id, admin, project_id, eta: op.eta },
                    ),
                    ..self
                },
            )
        }
    }

    pub open spec fn execute_suspend_project(self, now: u64, admin: String, op_id: String) -> Result<
        RegistryState,
        CarbonError,
    > {
        if let Some(e) = self.admin_gate(admin) {
            Err(e)
        } else if let Some(r) = self.timelock.execution_refusal(op_id@, now) {
            Err(refusal_error(r))
        } else {
            let op = self.timelock.ops[op_id@];
            if !self.projects.contains_key(op.target@) {
                Err(CarbonError::ProjectNotFound)
            } else if self.projects[op.target@].status == ProjectStatus::Rejected {
                Err(CarbonError::RetirementIrreversible)
            } else {
                let s = self.with_status(op.target@, ProjectStatus::Suspended);
                Ok(
                    RegistryState {
                        timelock: self.timelock.without_op(op_id@),
                        events: self.events.push(
                            RegistryEvent::ProjectSuspended { project_id: op.target, admin, reason: op.payload },
                        ),
                        ..s
                    },
                )
            }
        }
    }

    pub open spec fn contest_operation(self, now: u64, contestant: String, op_id: String, reason: String) -> Result<
        RegistryState,
        CarbonError,
    > {
        if self.locked {
            Err(CarbonError::ReentrancyGuard)
        } else if let Some(r) = self.timelock.contest_refusal(op_id@, now) {
            Err(refusal_error(r))
        } else {
            let record = ContestRecord { op_id, contested_by: contestant, reason, contested_at: now };
            Ok(
                RegistryState {
                    timelock: self.timelock.with_contest(record),
                    events: self.events.push(RegistryEvent::Contested { op_id, contestant, reason }),
                    ..self
                },
            )
        }
    }

    pub open spec fn rollback_operation(self, admin: String, op_id: String) -> Result<RegistryState, CarbonError> {
        if let Some(e) = self.admin_gate(admin) {
            Err(e)
        } else if !self.timelock.ops.contains_key(op_id@) {
            Err(CarbonError::ProjectNotFound)
        } else {
            Ok(
                RegistryState {
                    timelock: self.timelock.cancelled(op_id@),
                    events: self.events.push(RegistryEvent::RolledBack { op_id, admin }),
                    ..self
                },
            )
        }
    }

    pub open spec fn set_timelock_delay(self, admin: String, delay_secs: u64) -> Result<RegistryState, CarbonError> {
        if let Some(e) = self.admin_gate(admin) {
            Err(e)
        } else if delay_secs == 0 {
            Err(CarbonError::ZeroAmountNotAllowed)
        } else {
            Ok(RegistryState { timelock: self.timelock.with_delay(delay_secs), ..self })
        }
    }
}

/// The project registry contract.
pub struct CarbonRegistryContract {
    admin: Option<String>,
    oracle: Option<String>,
    verifiers: Vec<String>,
    projects: StringHashMap<CarbonProject>,
    timelock: Timelock<GovAction>,
    locked: bool,
    events: Vec<RegistryEvent>,
}

impl View for CarbonRegistryContract {
    type V = RegistryState;

    closed spec fn view(&self) -> RegistryState {
        RegistryState {
            admin: self.admin,
            oracle: self.oracle,
            verifiers: self.verifiers@,
            projects: self.projects@,
            timelock: self.timelock@,
            locked: self.locked,
            events: self.events@,
        }
    }
}

impl CarbonRegistryContract {
    /// The registry's invariant.
    pub open spec fn wf(&self) -> bool {
        self@.wf()
    }

    /// A freshly deployed registry, not yet initialized.
    pub fn new() -> (c: Self)
        ensures
            c@ == RegistryState::initial(),
            c.wf(),
    {
        CarbonRegistryContract {
            admin: None,
            oracle: None,
            verifiers: Vec::new(),
            projects: StringHashMap::new(),
            timelock: Timelock::new(),
            locked: false,
            events: Vec::new(),
        }
    }

    /// Events published so far, oldest first.
    pub fn events(&self) -> (r: &Vec<RegistryEvent>)
        ensures
            r@ == self@.events,
    {
        &self.events
    }

    fn acquire_lock(&mut self) -> (r: Result<(), CarbonError>)
        ensures
            old(self).locked ==> r == Err::<(), CarbonError>(CarbonError::ReentrancyGuard) && *final(self) == *old(self),
            !old(self).locked ==> r is Ok && *final(self) == (CarbonRegistryContract { locked: true, ..*old(self) }),
    {
        if self.locked {
            return Err(CarbonError::ReentrancyGuard);
        }
        self.locked = true;
        Ok(())
    }

    fn release_lock(&mut self)
        ensures
            *final(self) == (CarbonRegistryContract { locked: false, ..*old(self) }),
    {
        self.locked = false;
    }

    fn is_admin(&self, caller: &String) -> (r: bool)
        ensures
            r == self@.is_admin(*caller),
    {
        match &self.admin {
            Some(a) => *a == *caller,
            None => false,
        }
    }

    fn is_oracle(&self, caller: &String) -> (r: bool)
        ensures
            r == self@.is_oracle(*caller),
    {
        match &self.oracle {
            Some(o) => *o == *caller,
            None => false,
        }
    }

    fn is_verifier(&self, caller: &String) -> (r: bool)
        ensures
            r == self@.is_verifier(*caller),
    {
        let mut i: usize = 0;
        while i < self.verifiers.len()
            invariant
                i <= self.verifiers@.len(),
                forall|j: int| 0 <= j < i ==> #[trigger] self.verifiers@[j]@ != caller@,
            decreases self.verifiers@.len() - i,
        {
            if self.verifiers[i] == *caller {
                assert(self@.verifiers[i as int]@ == caller@);
                return true;
            }
            i = i + 1;
        }
        proof {
            assert forall|j: int| 0 <= j < self@.verifiers.len() implies #[trigger] self@.verifiers[j]@ != caller@ by {
                assert(self.verifiers@[j]@ != caller@);
            }
        }
        false
    }

    /// Whether project `project_id`, which must exist, was rejected.
    fn is_rejected(&self, project_id: &str) -> (r: bool)
        requires
            self@.projects.contains_key(project_id@),
        ensures
            r == (self@.projects[project_id@].status == ProjectStatus::Rejected),
    {
        match self.projects.get(project_id) {
            Some(p) => p.status == ProjectStatus::Rejected,
            None => false,
        }
    }

    /// Moves project `project_id`, which must exist, to `status`.
    fn set_status(&mut self, project_id: &String, status: ProjectStatus)
        requires
            old(self)@.projects.contains_key(project_id@),
        ensures
            final(self)@ == old(self)@.with_status(project_id@, status),
    {
        match self.projects.get(project_id.as_str()) {
            Some(p) => {
                let mut q = p.snapshot();
                q.status = status;
                self.projects.insert(project_id.clone(), q);
            },
            None => {},
        }
    }

    /// Sets the admin, the oracle and the verifier set; only the first call succeeds.
    pub fn initialize(&mut self, admin: String, oracle_address: String, verifiers: Vec<String>) -> (r: Result<
        (),
        CarbonError,
    >)
        requires
            old(self).wf(),
        ensures
            final(self).wf(),
            match r {
                Ok(()) => old(self)@.initialize(admin, oracle_address, verifiers@) == Ok::<RegistryState, CarbonError>(
                    final(self)@,
                ),
                Err(e) => old(self)@.initialize(admin, oracle_address, verifiers@) == Err::<
                    RegistryState,
                    CarbonError,
                >(e) && final(self)@ == old(self)@,
            },
    {
        if self.admin.is_some() {
            return Err(CarbonError::AlreadyInitialized);
        }
        self.admin = Some(admin);
        self.oracle = Some(oracle_address);
        self.verifiers = verifiers;
        Ok(())
    }

    /// Registers a new project as `Pending`.
    pub fn register_project(
        &mut self,
        now: u64,
        admin: String,
        project_id: String,
        name: String,
        metadata_cid: String,
        verifier_address: String,
        methodology: String,
        country: String,
        project_type: String,
        vintage_year: u32,
    ) -> (r: Result<(), CarbonError>)
        requires
            old(self).wf(),
        ensures
            final(self).wf(),
            match r {
                Ok(()) => old(self)@.register_project(
                    now,
                    admin,
                    project_id,
                    name,
                    metadata_cid,
                    verifier_address,
                    methodology,
                    country,
                    project_type,
                    vintage_year,
                ) == Ok::<RegistryState, CarbonError>(final(self)@),
                Err(e) => old(self)@.register_project(
                    now,
                    admin,
                    project_id,
                    name,
                    metadata_cid,
                    verifier_address,
                    methodology,
                    country,
                    project_type,
                    vintage_year,
                ) == Err::<RegistryState, CarbonError>(e) && final(self)@ == old(self)@,
            },
    {
        let ghost s0 = self@;
        self.acquire_lock()?;
        assert(!s0.locked);
        if !self.is_admin(&admin) {
            self.release_lock();
            return Err(CarbonError::UnauthorizedVerifier);
        }
        if self.projects.contains_key(project_id.as_str()) {
            self.release_lock();
            return Err(CarbonError::ProjectAlreadyExists);
        }
        if vintage_year < 2000 || vintage_year > 2100 {
            self.release_lock();
            return Err(CarbonError::InvalidVintageYear);
        }
        let project = CarbonProject {
            project_id: project_id.clone(),
            name,
            methodology: methodology.clone(),
            country: country.clone(),
            project_type,
            verifier_address,
            metadata_cid,
            total_credits_issued: 0,
            total_credits_retired: 0,
            status: ProjectStatus::Pending,
            vintage_year,
            created_at: now,
        };
        if let Some(e) = validate_project(&project) {
            self.release_lock();
            return Err(e);
        }
        self.projects.insert(project_id.clone(), project);
        self.events.push(RegistryEvent::ProjectRegistered { project_id, methodology, country, vintage_year });
        self.release_lock();
        Ok(())
    }

    /// An accredited verifier approves a project; a rejected project stays
    /// rejected (`RetirementIrreversible`).
    pub fn verify_project(&mut self, verifier_address: String, project_id: String) -> (r: Result<(), CarbonError>)
        requires
            old(self).wf(),
        ensures
            final(self).wf(),
            match r {
                Ok(()) => old(self)@.verify_project(verifier_address, project_id) == Ok::<RegistryState, CarbonError>(
                    final(self)@,
                ),
                Err(e) => old(self)@.verify_project(verifier_address, project_id) == Err::<
                    RegistryState,
                    CarbonError,
                >(e) && final(self)@ == old(self)@,
            },
    {
        let ghost s0 = self@;
        self.acquire_lock()?;
        assert(!s0.locked);
        assert(self@.verifiers == s0.verifiers);
        if !self.is_verifier(&verifier_address) {
            self.release_lock();
            return Err(CarbonError::UnauthorizedVerifier);
        }
        if !self.projects.contains_key(project_id.as_str()) {
            self.release_lock();
            return Err(CarbonError::ProjectNotFound);
        }
        if self.is_rejected(project_id.as_str()) {
            self.release_lock();
            return Err(CarbonError::RetirementIrreversible);
        }
        self.set_status(&project_id, ProjectStatus::Verified);
        self.events.push(RegistryEvent::ProjectVerified { project_id, verifier: verifier_address });
        self.release_lock();
        Ok(())
    }

    /// An accredited verifier permanently rejects a project.
    pub fn reject_project(&mut self, verifier_address: String, project_id: String, reason: String) -> (r: Result<
        (),
        CarbonError,
    >)
        requires
            old(self).wf(),
        ensures
            final(self).wf(),
            match r {
                Ok(()) => old(self)@.reject_project(verifier_address, project_id, reason) == Ok::<
                    RegistryState,
                    CarbonError,
                >(final(self)@),
                Err(e) => old(self)@.reject_project(verifier_address, project_id, reason) == Err::<
                    RegistryState,
                    CarbonError,
                >(e) && final(self)@ == old(self)@,
            },
    {
        let ghost s0 = self@;
        self.acquire_lock()?;
        assert(!s0.locked);
        assert(self@.verifiers == s0.verifiers);
        if !self.is_verifier(&verifier_address) {
            self.release_lock();
            return Err(CarbonError::UnauthorizedVerifier);
        }
        if !self.projects.contains_key(project_id.as_str()) {
            self.release_lock();
            return Err(CarbonError::ProjectNotFound);
        }
        self.set_status(&project_id, ProjectStatus::Rejected);
        self.events.push(RegistryEvent::ProjectRejected { project_id, verifier: verifier_address, reason });
        self.release_lock();
        Ok(())
    }

    /// The oracle sets the status of a project; a rejected project stays
    /// rejected (`RetirementIrreversible`).
    pub fn update_project_status(&mut self, oracle_address: String, project_id: String, status: ProjectStatus) -> (r:
        Result<(), CarbonError>)
        requires
            old(self).wf(),
        ensures
            final(self).wf(),
            match r {
                Ok(()) => old(self)@.update_project_status(oracle_address, project_id, status) == Ok::<
                    RegistryState,
                    CarbonError,
                >(final(self)@),
                Err(e) => old(self)@.update_project_status(oracle_address, project_id, status) == Err::<
                    RegistryState,
                    CarbonError,
                >(e) && final(self)@ == old(self)@,
            },
    {
        let ghost s0 = self@;
        self.acquire_lock()?;
        assert(!s0.locked);
        if !self.is_oracle(&oracle_address) {
            self.release_lock();
            return Err(CarbonError::UnauthorizedOracle);
        }
        if !self.projects.contains_key(project_id.as_str()) {
            self.release_lock();
            return Err(CarbonError::ProjectNotFound);
        }
        if self.is_rejected(project_id.as_str()) {
            self.release_lock();
            return Err(CarbonError::RetirementIrreversible);
        }
        self.set_status(&project_id, status);
        self.events.push(RegistryEvent::StatusUpdated { project_id, oracle: oracle_address });
        self.release_lock();
        Ok(())
    }

    /// The admin suspends a project at once, without the time-lock; a
    /// rejected project stays rejected (`RetirementIrreversible`).
    pub fn suspend_project(&mut self, admin: String, project_id: String, reason: String) -> (r: Result<(), CarbonError>)
        requires
            old(self).wf(),
        ensures
            final(self).wf(),
            match r {
                Ok(()) => old(self)@.suspend_project(admin, project_id, reason) == Ok::<RegistryState, CarbonError>(
                    final(self)@,
                ),
                Err(e) => old(self)@.suspend_project(admin, project_id, reason) == Err::<RegistryState, CarbonError>(e)
                    && final(self)@ == old(self)@,
            },
    {
        let ghost s0 = self@;
        self.acquire_lock()?;
        assert(!s0.locked);
        if !self.is_admin(&admin) {
            self.release_lock();
            return Err(CarbonError::UnauthorizedVerifier);
        }
        if !self.projects.contains_key(project_id.as_str()) {
            self.release_lock();
            return Err(CarbonError::ProjectNotFound);
        }
        if self.is_rejected(project_id.as_str()) {
            self.release_lock();
            return Err(CarbonError::RetirementIrreversible);
        }
        self.set_status(&project_id, ProjectStatus::Suspended);
        self.events.push(RegistryEvent::ProjectSuspended { project_id, admin, reason });
        self.release_lock();
        Ok(())
    }

    /// The project stored under `project_id`.
    pub fn get_project(&self, project_id: &str) -> (r: Result<&CarbonProject, CarbonError>)
        ensures
            match r {
                Ok(p) => self@.get_project(project_id@) == Ok::<CarbonProject, CarbonError>(*p),
                Err(e) => self@.get_project(project_id@) == Err::<CarbonProject, CarbonError>(e),
            },
    {
        match self.projects.get(project_id) {
            Some(p) => Ok(p),
            None => Err(CarbonError::ProjectNotFound),
        }
    }

    /// The oracle adds `amount` to the credits issued for a project; the sum
    /// is checked and the updated record must stay well formed.
    pub fn increment_issued(&mut self, oracle_address: String, project_id: String, amount: i128) -> (r: Result<
        (),
        CarbonError,
    >)
        requires
            old(self).wf(),
        ensures
            final(self).wf(),
            match r {
                Ok(()) => old(self)@.increment_issued(oracle_address, project_id, amount) == Ok::<
                    RegistryState,
                    CarbonError,
                >(final(self)@),
                Err(e) => old(self)@.increment_issued(oracle_address, project_id, amount) == Err::<
                    RegistryState,
                    CarbonError,
                >(e) && final(self)@ == old(self)@,
            },
    {
        let ghost s0 = self@;
        self.acquire_lock()?;
        assert(!s0.locked);
        if !self.is_oracle(&oracle_address) {
            self.release_lock();
            return Err(CarbonError::UnauthorizedOracle);
        }
        let mut q = match self.projects.get(project_id.as_str()) {
            Some(p) => p.snapshot(),
            None => {
                self.release_lock();
                return Err(CarbonError::ProjectNotFound);
            },
        };
        if amount <= 0 {
            self.release_lock();
            return Err(CarbonError::ZeroAmountNotAllowed);
        }
        match q.total_credits_issued.checked_add(amount) {
            Some(total) => {
                q.total_credits_issued = total;
            },
            None => {
                self.release_lock();
                return Err(CarbonError::ArithmeticOverflow);
            },
        }
        if let Some(e) = validate_project(&q) {
            self.release_lock();
            return Err(e);
        }
        self.projects.insert(project_id, q);
        self.release_lock();
        Ok(())
    }

    /// The operation queued under `op_id`.
    pub fn get_pending_op(&self, op_id: &str) -> (r: Result<&PendingOp, CarbonError>)
        ensures
            match r {
                Ok(op) => self@.get_pending_op(op_id@) == Ok::<PendingOp, CarbonError>(*op),
                Err(e) => self@.get_pending_op(op_id@) == Err::<PendingOp, CarbonError>(e),
            },
    {
        match self.timelock.pending_op(op_id) {
            Some(op) => Ok(op),
            None => Err(CarbonError::ProjectNotFound),
        }
    }

    /// The contest filed against `op_id`.
    pub fn get_contest(&self, op_id: &str) -> (r: Result<&ContestRecord, CarbonError>)
        ensures
            match r {
                Ok(c) => self@.get_contest(op_id@) == Ok::<ContestRecord, CarbonError>(*c),
                Err(e) => self@.get_contest(op_id@) == Err::<ContestRecord, CarbonError>(e),
            },
    {
        match self.timelock.contest_record(op_id) {
            Some(c) => Ok(c),
            None => Err(CarbonError::ProjectNotFound),
        }
    }

    /// Queues a suspension of a project, executable after the time-lock delay.
    pub fn propose_suspend_project(&mut self, now: u64, admin: String, op_id: String, project_id: String, reason: String) -> (r:
        Result<(), CarbonError>)
        requires
            old(self).wf(),
        ensures
            final(self).wf(),
            match r {
                Ok(()) => old(self)@.propose_suspend_project(now, admin, op_id, project_id, reason) == Ok::<
                    RegistryState,
                    CarbonError,
                >(final(self)@),
                Err(e) => old(self)@.propose_suspend_project(now, admin, op_id, project_id, reason) == Err::<
                    RegistryState,
                    CarbonError,
                >(e) && final(self)@ == old(self)@,
            },
    {
        let ghost s0 = self@;
        self.acquire_lock()?;
        assert(!s0.locked);
        if !self.is_admin(&admin) {
            self.release_lock();
            return Err(CarbonError::UnauthorizedVerifier);
        }
        if !self.projects.contains_key(project_id.as_str()) {
            self.release_lock();
            return Err(CarbonError::ProjectNotFound);
        }
        let eta = match now.checked_add(self.timelock.delay()) {
            Some(t) => t,
            None => {
                self.release_lock();
                return Err(CarbonError::ArithmeticOverflow);
            },
        };
        let op = PendingOp {
            op_id: op_id.clone(),
            action: GovAction::SuspendProject,
            target: project_id.clone(),
            initiated_by: admin.clone(),
            eta,
            payload: reason,
        };
        self.timelock.queue(op);
        self.events.push(RegistryEvent::SuspendQueued { op_id, admin, project_id, eta });
        self.release_lock();
        Ok(())
    }

    /// Runs a queued suspension once its delay has elapsed and nobody contested
    /// it; a rejected project stays rejected (`RetirementIrreversible`).
    pub fn execute_suspend_project(&mut self, now: u64, admin: String, op_id: String) -> (r: Result<(), CarbonError>)
        requires
            old(self).wf(),
        ensures
            final(self).wf(),
            match r {
                Ok(()) => old(self)@.execute_suspend_project(now, admin, op_id) == Ok::<RegistryState, CarbonError>(
                    final(self)@,
                ),
                Err(e) => old(self)@.execute_suspend_project(now, admin, op_id) == Err::<RegistryState, CarbonError>(e)
                    && final(self)@ == old(self)@,
            },
    {
        let ghost s0 = self@;
        self.acquire_lock()?;
        assert(!s0.locked);
        if !self.is_admin(&admin) {
            self.release_lock();
            return Err(CarbonError::UnauthorizedVerifier);
        }
        let (target, payload) = match self.timelock.executable(op_id.as_str(), now) {
            Ok(op) => (op.target.clone(), op.payload.clone()),
            Err(refusal) => {
                self.release_lock();
                return Err(to_error(refusal));
            },
        };
        if !self.projects.contains_key(target.as_str()) {
            self.release_lock();
            return Err(CarbonError::ProjectNotFound);
        }
        if self.is_rejected(target.as_str()) {
            self.release_lock();
            return Err(CarbonError::RetirementIrreversible);
        }
        self.set_status(&target, ProjectStatus::Suspended);
        self.timelock.remove_op(op_id.as_str());
        self.events.push(RegistryEvent::ProjectSuspended { project_id: target, admin, reason: payload });
        self.release_lock();
        Ok(())
    }

    /// Files a contest against a queued operation while its delay runs; anyone may contest.
    pub fn contest_operation(&mut self, now: u64, contestant: String, op_id: String, reason: String) -> (r: Result<
        (),
        CarbonError,
    >)
        requires
            old(self).wf(),
        ensures
            final(self).wf(),
            match r {
                Ok(()) => old(self)@.contest_operation(now, contestant, op_id, reason) == Ok::<
                    RegistryState,
                    CarbonError,
                >(final(self)@),
                Err(e) => old(self)@.contest_operation(now, contestant, op_id, reason) == Err::<
                    RegistryState,
                    CarbonError,
                >(e) && final(self)@ == old(self)@,
            },
    {
        let ghost s0 = self@;
        self.acquire_lock()?;
        assert(!s0.locked);
        if let Some(refusal) = self.timelock.check_contest(op_id.as_str(), now) {
            self.release_lock();
            return Err(to_error(refusal));
        }
        let record = ContestRecord {
            op_id: op_id.clone(),
            contested_by: contestant.clone(),
            reason: reason.clone(),
            contested_at: now,
        };
        self.timelock.file_contest(record);
        self.events.push(RegistryEvent::Contested { op_id, contestant, reason });
        self.release_lock();
        Ok(())
    }

    /// Cancels a queued operation and any contest of it.
    pub fn rollback_operation(&mut self, admin: String, op_id: String) -> (r: Result<(), CarbonError>)
        requires
            old(self).wf(),
        ensures
            final(self).wf(),
            match r {
                Ok(()) => old(self)@.rollback_operation(admin, op_id) == Ok::<RegistryState, CarbonError>(final(self)@),
                Err(e) => old(self)@.rollback_operation(admin, op_id) == Err::<RegistryState, CarbonError>(e)
                    && final(self)@ == old(self)@,
            },
    {
        let ghost s0 = self@;
        self.acquire_lock()?;
        assert(!s0.locked);
        if !self.is_admin(&admin) {
            self.release_lock();
            return Err(CarbonError::UnauthorizedVerifier);
        }
        if self.timelock.pending_op(op_id.as_str()).is_none() {
            self.release_lock();
            return Err(CarbonError::ProjectNotFound);
        }
        self.timelock.cancel(op_id.as_str());
        self.events.push(RegistryEvent::RolledBack { op_id, admin });
        self.release_lock();
        Ok(())
    }

    /// Changes the time-lock delay; it must be positive.
    pub fn set_timelock_delay(&mut self, admin: String, delay_secs: u64) -> (r: Result<(), CarbonError>)
        requires
            old(self).wf(),
        ensures
            final(self).wf(),
            match r {
                Ok(()) => old(self)@.set_timelock_delay(admin, delay_secs) == Ok::<RegistryState, CarbonError>(
                    final(self)@,
                ),
                Err(e) => old(self)@.set_timelock_delay(admin, delay_secs) == Err::<RegistryState, CarbonError>(e)
                    && final(self)@ == old(self)@,
            },
    {
        let ghost s0 = self@;
        self.acquire_lock()?;
        assert(!s0.locked);
        if !self.is_admin(&admin) {
            self.release_lock();
            return Err(CarbonError::UnauthorizedVerifier);
        }
        if delay_secs == 0 {
            self.release_lock();
            return Err(CarbonError::ZeroAmountNotAllowed);
        }
        self.timelock.set_delay(delay_secs);
        self.release_lock();
        Ok(())
    }
}


/// A freshly deployed registry satisfies its invariant.
pub proof fn lemma_initial_wf()
    ensures
        RegistryState::initial().wf(),
{
}

/// Registration succeeds only for the admin, on an unlocked registry, for a
/// new id; reading the project right after gives exactly the registered
/// record (every field as passed, created at `now`, `Pending`, nothing issued
/// or retired), and no other project changes.
pub proof fn lemma_register_then_get(
    s: RegistryState,
    now: u64,
    admin: String,
    project_id: String,
    name: String,
    metadata_cid: String,
    verifier_address: String,
    methodology: String,
    country: String,
    project_type: String,
    vintage_year: u32,
)
    requires
        s.register_project(
            now,
            admin,
            project_id,
            name,
            metadata_cid,
            verifier_address,
            methodology,
            country,
            project_type,
            vintage_year,
        ) is Ok,
    ensures
        ({
            let s1 = s.register_project(
                now,
                admin,
                project_id,
                name,
                metadata_cid,
                verifier_address,
                methodology,
                country,
                project_type,
                vintage_year,
            ).unwrap();
            let p = s1.projects[project_id@];
            &&& s1.get_project(project_id@) == Ok::<CarbonProject, CarbonError>(p)
            &&& p.project_id == project_id && p.name == name && p.methodology == methodology
            &&& p.country == country && p.project_type == project_type && p.verifier_address == verifier_address
            &&& p.metadata_cid == metadata_cid && p.vintage_year == vintage_year && p.created_at == now
            &&& p.status == ProjectStatus::Pending
            &&& p.total_credits_issued == 0
            &&& p.total_credits_retired == 0
            &&& !s.locked
            &&& s.admin matches Some(a) && a@ == admin@
            &&& !s.projects.contains_key(project_id@)
            &&& forall|k: Seq<char>| k != project_id@ ==> (#[trigger] s1.projects.contains_key(k) <==> s.projects.contains_key(k))
            &&& forall|k: Seq<char>| k != project_id@ && s.projects.contains_key(k) ==> #[trigger] s1.projects[k] == s.projects[k]
            &&& 2000 <= vintage_year <= 2100
        }),
{
}

/// Registration refuses a vintage year outside 2000..=2100 once the caller
/// is the admin and the id is new.
pub proof fn lemma_vintage_range(
    s: RegistryState,
    now: u64,
    admin: String,
    project_id: String,
    name: String,
    metadata_cid: String,
    verifier_address: String,
    methodology: String,
    country: String,
    project_type: String,
    vintage_year: u32,
)
    requires
        s.admin_gate(admin) is None,
        !s.projects.contains_key(project_id@),
        vintage_year < 2000 || vintage_year > 2100,
    ensures
        s.register_project(
            now,
            admin,
            project_id,
            name,
            metadata_cid,
            verifier_address,
            methodology,
            country,
            project_type,
            vintage_year,
        ) == Err::<RegistryState, CarbonError>(CarbonError::InvalidVintageYear),
{
}

/// Issued credits accumulate: two successful increments add both amounts.
pub proof fn lemma_increments_accumulate(s: RegistryState, oracle_address: String, project_id: String, a: i128, b: i128)
    requires
        s.increment_issued(oracle_address, project_id, a) is Ok,
        s.increment_issued(oracle_address, project_id, a).unwrap().increment_issued(oracle_address, project_id, b) is Ok,
    ensures
        s.increment_issued(oracle_address, project_id, a).unwrap().increment_issued(oracle_address, project_id, b).unwrap().projects[project_id@].total_credits_issued
            == s.projects[project_id@].total_credits_issued + a + b,
{
}

/// A contested operation can never run.
pub proof fn lemma_contest_blocks_execution(
    s: RegistryState,
    now: u64,
    contestant: String,
    op_id: String,
    reason: String,
    later: u64,
    admin: String,
)
    requires
        s.contest_operation(now, contestant, op_id, reason) is Ok,
    ensures
        s.contest_operation(now, contestant, op_id, reason).unwrap().execute_suspend_project(later, admin, op_id) is Err,
{
}

/// A queued suspension cannot run before its delay has elapsed.
pub proof fn lemma_suspension_waits(
    s: RegistryState,
    now: u64,
    admin: String,
    op_id: String,
    project_id: String,
    reason: String,
    later: u64,
)
    requires
        s.propose_suspend_project(now, admin, op_id, project_id, reason) is Ok,
        later < now + s.timelock.delay,
    ensures
        s.propose_suspend_project(now, admin, op_id, project_id, reason).unwrap().execute_suspend_project(
            later,
            admin,
            op_id,
        ) == Err::<RegistryState, CarbonError>(CarbonError::RetirementIrreversible),
{
}

/// Once its delay has elapsed, an uncontested suspension of a project that
/// was not rejected runs: the project becomes `Suspended` and the operation
/// leaves the queue.
pub proof fn lemma_suspension_runs_after_delay(
    s: RegistryState,
    now: u64,
    admin: String,
    op_id: String,
    project_id: String,
    reason: String,
    later: u64,
)
    requires
        s.propose_suspend_project(now, admin, op_id, project_id, reason) is Ok,
        !s.timelock.contests.contains_key(op_id@),
        s.projects[project_id@].status != ProjectStatus::Rejected,
        later >= now + s.timelock.delay,
    ensures
        ({
            let s1 = s.propose_suspend_project(now, admin, op_id, project_id, reason).unwrap();
            let r = s1.execute_suspend_project(later, admin, op_id);
            &&& r is Ok
            &&& r.unwrap().projects[project_id@].status == ProjectStatus::Suspended
            &&& r.unwrap().get_pending_op(op_id@) is Err
        }),
{
}

/// A rolled-back operation and any contest of it are gone.
pub proof fn lemma_rollback_removes(s: RegistryState, admin: String, op_id: String)
    requires
        s.rollback_operation(admin, op_id) is Ok,
    ensures
        s.rollback_operation(admin, op_id).unwrap().get_pending_op(op_id@) == Err::<PendingOp, CarbonError>(
            CarbonError::ProjectNotFound,
        ),
        s.rollback_operation(admin, op_id).unwrap().get_contest(op_id@) == Err::<ContestRecord, CarbonError>(
            CarbonError::ProjectNotFound,
        ),
{
}

/// Each role guards its functions: a caller without the role is refused
/// and nothing changes.
pub proof fn lemma_roles_guard(
    s: RegistryState,
    now: u64,
    caller: String,
    project_id: String,
    name: String,
    metadata_cid: String,
    verifier_address: String,
    methodology: String,
    country: String,
    project_type: String,
    vintage_year: u32,
    reason: String,
    status: ProjectStatus,
    amount: i128,
)
    requires
        !s.locked,
    ensures
        !s.is_admin(caller) ==> s.register_project(
            now,
            caller,
            project_id,
            name,
            metadata_cid,
            verifier_address,
            methodology,
            country,
            project_type,
            vintage_year,
        ) == Err::<RegistryState, CarbonError>(CarbonError::UnauthorizedVerifier),
        !s.is_admin(caller) ==> s.suspend_project(caller, project_id, reason) == Err::<RegistryState, CarbonError>(
            CarbonError::UnauthorizedVerifier,
        ),
        !s.is_verifier(caller) ==> s.verify_project(caller, project_id) == Err::<RegistryState, CarbonError>(
            CarbonError::UnauthorizedVerifier,
        ),
        !s.is_verifier(caller) ==> s.reject_project(caller, project_id, reason) == Err::<RegistryState, CarbonError>(
            CarbonError::UnauthorizedVerifier,
        ),
        !s.is_oracle(caller) ==> s.update_project_status(caller, project_id, status) == Err::<
            RegistryState,
            CarbonError,
        >(CarbonError::UnauthorizedOracle),
        !s.is_oracle(caller) ==> s.increment_issued(caller, project_id, amount) == Err::<RegistryState, CarbonError>(
            CarbonError::UnauthorizedOracle,
        ),
{
}


/// One call to the registry, with its arguments.
pub enum RegistryCall {
    Initialize { admin: String, oracle_address: String, verifiers: Seq<String> },
    Register {
        now: u64,
        admin: String,
        project_id: String,
        name: String,
        metadata_cid: String,
        verifier_address: String,
        methodology: String,
        country: String,
        project_type: String,
        vintage_year: u32,
    },
    Verify { verifier_address: String, project_id: String },
    Reject { verifier_address: String, project_id: String, reason: String },
    UpdateStatus { oracle_address: String, project_id: String, status: ProjectStatus },
    Suspend { admin: String, project_id: String, reason: String },
    IncrementIssued { oracle_address: String, project_id: String, amount: i128 },
    ProposeSuspend { now: u64, admin: String, op_id: String, project_id: String, reason: String },
    ExecuteSuspend { now: u64, admin: String, op_id: String },
    Contest { now: u64, contestant: String, op_id: String, reason: String },
    Rollback { admin: String, op_id: String },
    SetTimelockDelay { admin: String, delay_secs: u64 },
}

impl RegistryState {
    /// The outcome of `call`.
    pub open spec fn outcome(self, call: RegistryCall) -> Result<RegistryState, CarbonError> {
        match call {
            RegistryCall::Initialize { admin, oracle_address, verifiers } => self.initialize(
                admin,
                oracle_address,
                verifiers,
            ),
            RegistryCall::Register {
                now,
                admin,
                project_id,
                name,
                metadata_cid,
                verifier_address,
                methodology,
                country,
                project_type,
                vintage_year,
            } => self.register_project(
                now,
                admin,
                project_id,
                name,
                metadata_cid,
                verifier_address,
                methodology,
                country,
                project_type,
                vintage_year,
            ),
            RegistryCall::Verify { verifier_address, project_id } => self.verify_project(verifier_address, project_id),
            RegistryCall::Reject { verifier_address, project_id, reason } => self.reject_project(
                verifier_address,
                project_id,
                reason,
            ),
            RegistryCall::UpdateStatus { oracle_address, project_id, status } => self.update_project_status(
                oracle_address,
                project_id,
                status,
            ),
            RegistryCall::Suspend { admin, project_id, reason } => self.suspend_project(admin, project_id, reason),
            RegistryCall::IncrementIssued { oracle_address, project_id, amount } => self.increment_issued(
                oracle_address,
                project_id,
                amount,
            ),
            RegistryCall::ProposeSuspend { now, admin, op_id, project_id, reason } => self.propose_suspend_project(
                now,
                admin,
                op_id,
                project_id,
                reason,
            ),
            RegistryCall::ExecuteSuspend { now, admin, op_id } => self.execute_suspend_project(now, admin, op_id),
            RegistryCall::Contest { now, contestant, op_id, reason } => self.contest_operation(
                now,
                contestant,
                op_id,
                reason,
            ),
            RegistryCall::Rollback { admin, op_id } => self.rollback_operation(admin, op_id),
            RegistryCall::SetTimelockDelay { admin, delay_secs } => self.set_timelock_delay(admin, delay_secs),
        }
    }

    /// The registry after `call`: the new state when the call succeeds, the
    /// same state when it fails.
    pub open spec fn after(self, call: RegistryCall) -> RegistryState {
        match self.outcome(call) {
            Ok(s) => s,
            Err(_) => self,
        }
    }
}

/// Every call keeps the registry's invariant: each project is stored under
/// its own id, has a vintage in 2000..=2100, and never retires more than it
/// issued.
pub proof fn lemma_call_keeps_wf(s: RegistryState, call: RegistryCall)
    requires
        s.wf(),
    ensures
        s.after(call).wf(),
{
    let s1 = s.after(call);
    assert forall|k: Seq<char>| #[trigger] s1.projects.contains_key(k) implies s1.projects[k].project_id@ == k
        && project_error(s1.projects[k]) is None by {
        if s.projects.contains_key(k) {
            assert(s.projects[k].project_id@ == k);
        }
    }
}

/// Issued credits never decrease, and no call removes a project.
pub proof fn lemma_issued_monotone(s: RegistryState, call: RegistryCall, k: Seq<char>)
    requires
        s.wf(),
        s.projects.contains_key(k),
    ensures
        s.after(call).projects.contains_key(k),
        s.after(call).projects[k].total_credits_issued >= s.projects[k].total_credits_issued,
{
}

/// Only four calls change a project's status: a verifier's approval or
/// rejection, the oracle's status update, and a suspension, direct or
/// through the time-lock.
pub proof fn lemma_status_writers(s: RegistryState, call: RegistryCall, k: Seq<char>)
    requires
        s.projects.contains_key(k),
        !(call is Verify || call is Reject || call is UpdateStatus || call is Suspend || call is ExecuteSuspend),
    ensures
        s.after(call).projects.contains_key(k),
        s.after(call).projects[k].status == s.projects[k].status,
{
}

/// Rejection is irreversible: once a project is rejected, every call leaves
/// it rejected.
pub proof fn lemma_rejection_final(s: RegistryState, call: RegistryCall, k: Seq<char>)
    requires
        s.projects.contains_key(k),
        s.projects[k].status == ProjectStatus::Rejected,
    ensures
        s.after(call).projects.contains_key(k),
        s.after(call).projects[k].status == ProjectStatus::Rejected,
{
}

/// Every call that finds the registry unlocked leaves it unlocked, whether
/// it succeeds or fails.
pub proof fn lemma_lock_released(s: RegistryState, call: RegistryCall)
    requires
        !s.locked,
    ensures
        !s.after(call).locked,
{
}

/// Initialisation happens once: after it, no call changes the admin or the
/// oracle, and a second `initialize` is refused.
pub proof fn lemma_initialize_once(
    s: RegistryState,
    call: RegistryCall,
    admin: String,
    oracle_address: String,
    verifiers: Seq<String>,
)
    requires
        s.admin is Some,
    ensures
        s.after(call).admin == s.admin,
        s.after(call).oracle == s.oracle,
        s.initialize(admin, oracle_address, verifiers) == Err::<RegistryState, CarbonError>(
            CarbonError::AlreadyInitialized,
        ),
{
    match call {
        RegistryCall::Initialize { .. } => {},
        RegistryCall::Register { .. } => {},
        RegistryCall::Verify { .. } => {},
        RegistryCall::Reject { .. } => {},
        RegistryCall::UpdateStatus { .. } => {},
        RegistryCall::Suspend { .. } => {},
        RegistryCall::IncrementIssued { .. } => {},
        RegistryCall::ProposeSuspend { .. } => {},
        RegistryCall::ExecuteSuspend { .. } => {},
        RegistryCall::Contest { .. } => {},
        RegistryCall::Rollback { .. } => {},
        RegistryCall::SetTimelockDelay { .. } => {},
    }
}


/// The reentrancy guard: while a call holds the lock, every other call but
/// `initialize` is refused with `ReentrancyGuard`.
pub proof fn lemma_locked_refuses(s: RegistryState, call: RegistryCall)
    requires
        s.locked,
        !(call is Initialize),
    ensures
        s.outcome(call) == Err::<RegistryState, CarbonError>(CarbonError::ReentrancyGuard),
{
}

/// Time-lock governance is the admin's: anyone else proposing, executing or
/// rolling back a suspension, or changing the delay, is refused with
/// `UnauthorizedVerifier` and nothing changes.
pub proof fn lemma_governance_admin_only(s: RegistryState, call: RegistryCall)
    requires
        !s.locked,
        match call {
            RegistryCall::ProposeSuspend { admin, .. } => !s.is_admin(admin),
            RegistryCall::ExecuteSuspend { admin, .. } => !s.is_admin(admin),
            RegistryCall::Rollback { admin, .. } => !s.is_admin(admin),
            RegistryCall::SetTimelockDelay { admin, .. } => !s.is_admin(admin),
            _ => false,
        },
    ensures
        s.outcome(call) == Err::<RegistryState, CarbonError>(CarbonError::UnauthorizedVerifier),
        s.after(call) == s,
{
}


/// A successful status change leaves its project with exactly the status it
/// names: `Verified` after an approval, `Rejected` after a rejection, the
/// oracle's status after an update and `Suspended` after a suspension; every
/// other field of the project and every other project stay as they were.
pub proof fn lemma_status_results(
    s: RegistryState,
    caller: String,
    project_id: String,
    reason: String,
    status: ProjectStatus,
)
    requires
        s.projects.contains_key(project_id@),
    ensures
        s.verify_project(caller, project_id) is Ok ==> status_changed(
            s,
            s.verify_project(caller, project_id).unwrap(),
            project_id@,
            ProjectStatus::Verified,
        ),
        s.reject_project(caller, project_id, reason) is Ok ==> status_changed(
            s,
            s.reject_project(caller, project_id, reason).unwrap(),
            project_id@,
            ProjectStatus::Rejected,
        ),
        s.update_project_status(caller, project_id, status) is Ok ==> status_changed(
            s,
            s.update_project_status(caller, project_id, status).unwrap(),
            project_id@,
            status,
        ),
        s.suspend_project(caller, project_id, reason) is Ok ==> status_changed(
            s,
            s.suspend_project(caller, project_id, reason).unwrap(),
            project_id@,
            ProjectStatus::Suspended,
        ),
{
    let k = project_id@;
    assert(s.projects.insert(k, s.projects[k]).dom() =~= s.projects.dom());
    assert forall|st: ProjectStatus| #[trigger] s.with_status(k, st).projects.dom() =~= s.projects.dom() by {}
    if s.verify_project(caller, project_id) is Ok {
        assert(s.verify_project(caller, project_id).unwrap().projects == s.with_status(k, ProjectStatus::Verified).projects);
    }
    if s.reject_project(caller, project_id, reason) is Ok {
        assert(s.reject_project(caller, project_id, reason).unwrap().projects == s.with_status(k, ProjectStatus::Rejected).projects);
    }
    if s.update_project_status(caller, project_id, status) is Ok {
        assert(s.update_project_status(caller, project_id, status).unwrap().projects == s.with_status(k, status).projects);
    }
    if s.suspend_project(caller, project_id, reason) is Ok {
        assert(s.suspend_project(caller, project_id, reason).unwrap().projects == s.with_status(k, ProjectStatus::Suspended).projects);
    }
}

/// `s1` is `s` with project `k` moved to `status` and nothing else about the
/// projects changed.
pub open spec fn status_changed(s: RegistryState, s1: RegistryState, k: Seq<char>, status: ProjectStatus) -> bool {
    let p = s.projects[k];
    let q = s1.projects[k];
    &&& s1.projects.dom() == s.projects.dom()
    &&& q.status == status
    &&& q.project_id == p.project_id && q.name == p.name && q.methodology == p.methodology
    &&& q.country == p.country && q.project_type == p.project_type && q.verifier_address == p.verifier_address
    &&& q.metadata_cid == p.metadata_cid && q.total_credits_issued == p.total_credits_issued
    &&& q.total_credits_retired == p.total_credits_retired && q.vintage_year == p.vintage_year
    &&& q.created_at == p.created_at
    &&& forall|kk: Seq<char>| kk != k && s.projects.contains_key(kk) ==> #[trigger] s1.projects[kk] == s.projects[kk]
}

/// A registered verifier may reject any project on an unlocked registry,
/// whatever its status: the call succeeds and the project ends `Rejected`.
pub proof fn lemma_reject_succeeds(s: RegistryState, verifier_address: String, project_id: String, reason: String, i: int)
    requires
        !s.locked,
        0 <= i < s.verifiers.len(),
        s.verifiers[i]@ == verifier_address@,
        s.projects.contains_key(project_id@),
    ensures
        s.reject_project(verifier_address, project_id, reason) is Ok,
        s.reject_project(verifier_address, project_id, reason).unwrap().projects[project_id@].status
            == ProjectStatus::Rejected,
{
}

/// A successful increment adds exactly `amount` to the project's issued
/// credits, changes nothing else, and needs a positive amount.
pub proof fn lemma_increment_result(s: RegistryState, oracle_address: String, project_id: String, amount: i128)
    requires
        s.increment_issued(oracle_address, project_id, amount) is Ok,
    ensures
        ({
            let s1 = s.increment_issued(oracle_address, project_id, amount).unwrap();
            let p = s.projects[project_id@];
            let q = s1.projects[project_id@];
            &&& amount > 0
            &&& s.projects.contains_key(project_id@)
            &&& q.total_credits_issued == p.total_credits_issued + amount
            &&& q.status == p.status && q.total_credits_retired == p.total_credits_retired
            &&& q.project_id == p.project_id && q.name == p.name && q.methodology == p.methodology
            &&& q.vintage_year == p.vintage_year
            &&& s1.projects.dom() == s.projects.dom()
            &&& forall|kk: Seq<char>| kk != project_id@ && s.projects.contains_key(kk) ==> #[trigger] s1.projects[kk]
                == s.projects[kk]
        }),
{
}

/// A queued suspension records the admin, the project, the reason and an
/// execution time `now` plus the delay.
pub proof fn lemma_suspension_queued(
    s: RegistryState,
    now: u64,
    admin: String,
    op_id: String,
    project_id: String,
    reason: String,
)
    requires
        s.propose_suspend_project(now, admin, op_id, project_id, reason) is Ok,
    ensures
        ({
            let s1 = s.propose_suspend_project(now, admin, op_id, project_id, reason).unwrap();
            let op = s1.timelock.ops[op_id@];
            &&& s.admin matches Some(a) && a@ == admin@
            &&& s.projects.contains_key(project_id@)
            &&& s1.timelock.ops.contains_key(op_id@)
            &&& op.op_id == op_id && op.action == GovAction::SuspendProject && op.target == project_id
            &&& op.initiated_by == admin && op.payload == reason && op.eta == now + s.timelock.delay
            &&& s1.projects == s.projects
        }),
{
}

/// Anyone may contest a queued operation while its execution time lies
/// ahead: the contest succeeds exactly then (on an unlocked contract), and
/// files the contestant, the reason and the time under the operation's id,
/// leaving the queued operation itself as it was.
pub proof fn lemma_contest_recorded(s: RegistryState, now: u64, contestant: String, op_id: String, reason: String)
    ensures
        s.contest_operation(now, contestant, op_id, reason) is Ok <==> (!s.locked && s.timelock.ops.contains_key(op_id@)
            && now < s.timelock.ops[op_id@].eta),
        s.contest_operation(now, contestant, op_id, reason) is Ok ==> ({
            let s1 = s.contest_operation(now, contestant, op_id, reason).unwrap();
            let c = s1.timelock.contests[op_id@];
            &&& s1.timelock.contests.contains_key(op_id@)
            &&& c.op_id == op_id && c.contested_by == contestant && c.reason == reason && c.contested_at == now
            &&& s1.timelock.ops == s.timelock.ops
        }),
{
}

/// On an unlocked registry, a status change of a stored project that was not
/// rejected succeeds for the role that may make it: approval by a registered
/// verifier, an update by the oracle, a suspension by the admin.
pub proof fn lemma_status_writers_succeed(
    s: RegistryState,
    caller: String,
    project_id: String,
    reason: String,
    status: ProjectStatus,
    i: int,
)
    requires
        !s.locked,
        s.projects.contains_key(project_id@),
        s.projects[project_id@].status != ProjectStatus::Rejected,
    ensures
        0 <= i < s.verifiers.len() && s.verifiers[i]@ == caller@ ==> s.verify_project(caller, project_id) is Ok,
        (s.oracle matches Some(o) && o@ == caller@) ==> s.update_project_status(caller, project_id, status) is Ok,
        (s.admin matches Some(a) && a@ == caller@) ==> s.suspend_project(caller, project_id, reason) is Ok,
{
}

/// `get_project` returns the stored project, or `ProjectNotFound`.
pub proof fn lemma_read_project(s: RegistryState, id: Seq<char>)
    ensures
        s.projects.contains_key(id) ==> s.get_project(id) == Ok::<CarbonProject, CarbonError>(s.projects[id]),
        !s.projects.contains_key(id) ==> s.get_project(id) == Err::<CarbonProject, CarbonError>(
            CarbonError::ProjectNotFound,
        ),
{
}

/// A delay change succeeds only with a positive delay, and from then on
/// operations wait exactly that long; queued operations keep their times.
pub proof fn lemma_delay_set(s: RegistryState, admin: String, delay_secs: u64)
    requires
        s.set_timelock_delay(admin, delay_secs) is Ok,
    ensures
        delay_secs > 0,
        s.set_timelock_delay(admin, delay_secs).unwrap().timelock.delay == delay_secs,
        s.set_timelock_delay(admin, delay_secs).unwrap().timelock.ops == s.timelock.ops,
{
}

} // verus!
